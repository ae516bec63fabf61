//! Transfer requests, their log entries, and transfers admitted to the pending pool.

use vstd::prelude::*;
use super::block_chain_errors::BlockChainError;
use super::wallet::{Wallet, WalletView};

verus! {

/// A transfer request, and the form in which a wallet's log keeps it.
#[derive(Debug)]
pub struct TransactionInfo {
    pub from_address: String,
    pub from_password: String,
    pub to_address: String,
    pub amount: u32,
}

/// What a [`TransactionInfo`] holds, as mathematical values.
pub struct TransactionInfoView {
    pub from_address: Seq<char>,
    pub from_password: Seq<char>,
    pub to_address: Seq<char>,
    pub amount: nat,
}

impl View for TransactionInfo {
    type V = TransactionInfoView;

    open spec fn view(&self) -> TransactionInfoView {
        TransactionInfoView {
            from_address: self.from_address@,
            from_password: self.from_password@,
            to_address: self.to_address@,
            amount: self.amount as nat,
        }
    }
}

impl DeepView for TransactionInfo {
    type V = TransactionInfoView;

    open spec fn deep_view(&self) -> TransactionInfoView {
        self@
    }
}

impl Clone for TransactionInfo {
    fn clone(&self) -> (copy: Self)
        ensures
            copy@ == self@,
    {
        TransactionInfo {
            from_address: self.from_address.clone(),
            from_password: self.from_password.clone(),
            to_address: self.to_address.clone(),
            amount: self.amount,
        }
    }
}

impl TransactionInfoView {
    /// The reason for which a request is refused before any wallet is looked
    /// at, if there is one: an empty sender, else an empty receiver, else an
    /// amount of zero.
    pub open spec fn rejection(self) -> Option<BlockChainError> {
        if self.from_address.len() == 0 {
            Some(BlockChainError::EmptyFromAddress)
        } else if self.to_address.len() == 0 {
            Some(BlockChainError::EmptyToAddress)
        } else if self.amount == 0 {
            Some(BlockChainError::InvalidAmount)
        } else {
            None
        }
    }
}

impl TransactionInfo {
    /// Checks the request by itself: both addresses must be given and the
    /// amount must be positive.
    pub fn check_transaction_info(&self) -> (res: Result<(), BlockChainError>)
        ensures
            res is Ok <==> self@.rejection() is None,
            res matches Err(e) ==> self@.rejection() == Some(e),
    {
        if self.from_address.as_str().is_empty() {
            return Err(BlockChainError::EmptyFromAddress);
        }
        if self.to_address.as_str().is_empty() {
            return Err(BlockChainError::EmptyToAddress);
        }
        if self.amount == 0 {
            return Err(BlockChainError::InvalidAmount);
        }
        Ok(())
    }
}

/// A transfer admitted to the pending pool: both wallets as they stood when
/// it was admitted, and the amount.
#[derive(Debug)]
pub struct Transaction {
    pub from_wallet: Wallet,
    pub to_wallet: Wallet,
    pub amount: u32,
}

/// What a [`Transaction`] holds, as mathematical values.
pub struct TransactionView {
    pub from_wallet: WalletView,
    pub to_wallet: WalletView,
    pub amount: nat,
}

impl View for Transaction {
    type V = TransactionView;

    open spec fn view(&self) -> TransactionView {
        TransactionView {
            from_wallet: self.from_wallet@,
            to_wallet: self.to_wallet@,
            amount: self.amount as nat,
        }
    }
}

impl DeepView for Transaction {
    type V = TransactionView;

    open spec fn deep_view(&self) -> TransactionView {
        self@
    }
}

impl Clone for Transaction {
    fn clone(&self) -> (copy: Self)
        ensures
            copy@ == self@,
    {
        Transaction {
            from_wallet: self.from_wallet.clone(),
            to_wallet: self.to_wallet.clone(),
            amount: self.amount,
        }
    }
}

impl Transaction {
    /// A transfer of `amount` from `from_wallet` to `to_wallet`.
    pub fn new(from_wallet: Wallet, to_wallet: Wallet, amount: u32) -> (transaction: Self)
        ensures
            transaction.from_wallet == from_wallet,
            transaction.to_wallet == to_wallet,
            transaction.amount == amount,
    {
        Transaction { amount, from_wallet, to_wallet }
    }
}

} // verus!
