//! The failures that ledger operations report.

use vstd::prelude::*;

verus! {

/// Why a ledger operation was refused.
#[derive(Debug, Clone, Copy, PartialEq, Eq, Structural)]
pub enum BlockChainError {
    EmptyFromAddress,
    EmptyToAddress,
    InvalidAmount,
    EmptyAddress,
    MiningAddress,
    NegativeBalance,
    EmptyPassword,
    NoPendingTransactions,
    InvalidRewardAddress,
    WrongPassword,
    InvalidToAddress,
    InvalidFromAddress,
    NotEnoughCoins,
    NegativeAmount,
    WalletAlreadyExists,
    WalletNotFound,
    ChainIsEmpty,
    /// A credit would raise a balance above what a wallet can hold.
    BalanceOverflow,
    /// Every nonce left to a block was tried and none met the difficulty.
    NonceExhausted,
}

impl BlockChainError {
    /// The sentence shown to the user for this failure.
    pub open spec fn message_text(self) -> Seq<char> {
        match self {
            BlockChainError::EmptyFromAddress => "'From' address is empty!"@,
            BlockChainError::EmptyToAddress => "'To' address is empty!"@,
            BlockChainError::InvalidAmount => "Amount can't be 0 or less!"@,
            BlockChainError::EmptyAddress => "Address is empty!"@,
            BlockChainError::MiningAddress => "Address cannot be 'MINING'!"@,
            BlockChainError::NegativeBalance => "Balance is less than 0!"@,
            BlockChainError::EmptyPassword => "Password is empty!"@,
            BlockChainError::NoPendingTransactions => "There are no pending transactions!"@,
            BlockChainError::InvalidRewardAddress => "Reward address doesn't exists!"@,
            BlockChainError::WrongPassword => "Wrong password!"@,
            BlockChainError::InvalidToAddress => "'To' address doesn't exists!"@,
            BlockChainError::InvalidFromAddress => "'From' address doesn't exists!"@,
            BlockChainError::NotEnoughCoins => "Not enough coins!"@,
            BlockChainError::NegativeAmount => "Amount is less than 0!"@,
            BlockChainError::WalletAlreadyExists => "A wallet with this address already exists!"@,
            BlockChainError::WalletNotFound => "Wallet not found!"@,
            BlockChainError::ChainIsEmpty => "Chain is empty!"@,
            BlockChainError::BalanceOverflow => "Balance would exceed the maximum!"@,
            BlockChainError::NonceExhausted => "No nonce meets the difficulty!"@,
        }
    }

    /// Writes the sentence shown to the user for this failure.
    pub fn message(&self) -> (text: String)
        ensures
            text@ == self.message_text(),
    {
        let text: &'static str = match self {
            BlockChainError::EmptyFromAddress => "'From' address is empty!",
            BlockChainError::EmptyToAddress => "'To' address is empty!",
            BlockChainError::InvalidAmount => "Amount can't be 0 or less!",
            BlockChainError::EmptyAddress => "Address is empty!",
            BlockChainError::MiningAddress => "Address cannot be 'MINING'!",
            BlockChainError::NegativeBalance => "Balance is less than 0!",
            BlockChainError::EmptyPassword => "Password is empty!",
            BlockChainError::NoPendingTransactions => "There are no pending transactions!",
            BlockChainError::InvalidRewardAddress => "Reward address doesn't exists!",
            BlockChainError::WrongPassword => "Wrong password!",
            BlockChainError::InvalidToAddress => "'To' address doesn't exists!",
            BlockChainError::InvalidFromAddress => "'From' address doesn't exists!",
            BlockChainError::NotEnoughCoins => "Not enough coins!",
            BlockChainError::NegativeAmount => "Amount is less than 0!",
            BlockChainError::WalletAlreadyExists => "A wallet with this address already exists!",
            BlockChainError::WalletNotFound => "Wallet not found!",
            BlockChainError::ChainIsEmpty => "Chain is empty!",
            BlockChainError::BalanceOverflow => "Balance would exceed the maximum!",
            BlockChainError::NonceExhausted => "No nonce meets the difficulty!",
        };
        String::from_str(text)
    }

    /// The HTTP status under which this failure is reported: 404 where
    /// something named in the request is missing, 424 otherwise.
    pub open spec fn status_of(self) -> u16 {
        match self {
            BlockChainError::EmptyFromAddress
            | BlockChainError::EmptyToAddress
            | BlockChainError::EmptyAddress
            | BlockChainError::WalletNotFound
            | BlockChainError::ChainIsEmpty => 404,
            _ => 424,
        }
    }

    /// The HTTP status under which this failure is reported.
    pub fn status_code(&self) -> (code: u16)
        ensures
            code == self.status_of(),
    {
        match self {
            BlockChainError::EmptyFromAddress => 404,
            BlockChainError::EmptyToAddress => 404,
            BlockChainError::InvalidAmount => 424,
            BlockChainError::EmptyAddress => 404,
            BlockChainError::MiningAddress => 424,
            BlockChainError::NegativeBalance => 424,
            BlockChainError::EmptyPassword => 424,
            BlockChainError::NoPendingTransactions => 424,
            BlockChainError::InvalidRewardAddress => 424,
            BlockChainError::WrongPassword => 424,
            BlockChainError::InvalidToAddress => 424,
            BlockChainError::InvalidFromAddress => 424,
            BlockChainError::NotEnoughCoins => 424,
            BlockChainError::NegativeAmount => 424,
            BlockChainError::WalletAlreadyExists => 424,
            BlockChainError::WalletNotFound => 404,
            BlockChainError::ChainIsEmpty => 404,
            BlockChainError::BalanceOverflow => 424,
            BlockChainError::NonceExhausted => 424,
        }
    }
}

} // verus!
