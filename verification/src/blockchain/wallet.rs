//! Wallets and the requests that create and fund them.

use vstd::prelude::*;
use super::block_chain::MINING_ADDRESS;
use super::block_chain_errors::BlockChainError;
use super::transaction::{TransactionInfo, TransactionInfoView};

verus! {

/// A named account: its balance, its password and the log of its transfers.
#[derive(Debug)]
pub struct Wallet {
    pub address: String,
    pub balance: u32,
    pub password: String,
    pub transactions: Vec<TransactionInfo>,
}

/// What a [`Wallet`] holds, as mathematical values.
///
/// The balance is an `int`, so that a debit is a plain subtraction and that
/// it never goes below zero is something to be proved.
pub struct WalletView {
    pub address: Seq<char>,
    pub balance: int,
    pub password: Seq<char>,
    pub transactions: Seq<TransactionInfoView>,
}

impl View for Wallet {
    type V = WalletView;

    open spec fn view(&self) -> WalletView {
        WalletView {
            address: self.address@,
            balance: self.balance as int,
            password: self.password@,
            transactions: self.transactions.deep_view(),
        }
    }
}

impl DeepView for Wallet {
    type V = WalletView;

    open spec fn deep_view(&self) -> WalletView {
        self@
    }
}

impl Clone for Wallet {
    fn clone(&self) -> (copy: Self)
        ensures
            copy@ == self@,
    {
        let transactions = self.transactions.clone();
        assert(transactions.deep_view() =~= self.transactions.deep_view());
        Wallet {
            address: self.address.clone(),
            balance: self.balance,
            password: self.password.clone(),
            transactions,
        }
    }
}

impl WalletView {
    /// A wallet that has made no transfer yet.
    pub open spec fn fresh(address: Seq<char>, balance: int, password: Seq<char>) -> WalletView {
        WalletView { address, balance, password, transactions: Seq::empty() }
    }

    /// Whether the wallet is one that can have been created and used: its
    /// balance is not negative, its address is neither empty nor the
    /// reserved mining address, and it has a password.
    pub open spec fn sound(self) -> bool {
        &&& self.balance >= 0
        &&& self.address.len() > 0
        &&& self.address != MINING_ADDRESS@
        &&& self.password.len() > 0
    }

    /// The wallet after it sent `amount` to the address `receiver`: the
    /// balance is lowered and the transfer is logged.
    pub open spec fn debited(self, receiver: Seq<char>, amount: nat) -> WalletView {
        WalletView {
            balance: self.balance - amount,
            transactions: self.transactions.push(
                TransactionInfoView {
                    from_address: self.address,
                    from_password: self.password,
                    to_address: receiver,
                    amount,
                },
            ),
            ..self
        }
    }

    /// The wallet after it received `amount` from the wallet with the
    /// address `sender` and the password `sender_password`: the balance is
    /// raised and the transfer is logged.
    pub open spec fn credited(self, sender: Seq<char>, sender_password: Seq<char>, amount: nat) -> WalletView {
        WalletView {
            balance: self.balance + amount,
            transactions: self.transactions.push(
                TransactionInfoView {
                    from_address: sender,
                    from_password: sender_password,
                    to_address: self.address,
                    amount,
                },
            ),
            ..self
        }
    }
}

impl Wallet {
    /// A wallet with the given address, balance and password and an empty log.
    pub fn new(address: String, balance: u32, password: String) -> (wallet: Self)
        ensures
            wallet@ == WalletView::fresh(address@, balance as int, password@),
            wallet.address == address,
            wallet.password == password,
    {
        let wallet = Wallet { address, balance, password, transactions: Vec::new() };
        assert(wallet.transactions.deep_view() =~= Seq::empty());
        wallet
    }

    /// Takes `amount` out of the wallet and logs the transfer to `receiver`.
    pub(crate) fn debit(&mut self, receiver: &String, amount: u32)
        requires
            amount <= old(self).balance,
        ensures
            final(self)@ == old(self)@.debited(receiver@, amount as nat),
    {
        let entry = TransactionInfo {
            from_address: self.address.clone(),
            from_password: self.password.clone(),
            to_address: receiver.clone(),
            amount,
        };
        let ghost log = self@.transactions;
        self.balance -= amount;
        self.transactions.push(entry);
        assert(self@.transactions =~= log.push(entry@));
    }

    /// Puts `amount` into the wallet and logs the transfer from the wallet
    /// with the address `sender` and the password `sender_password`.
    pub(crate) fn credit(&mut self, sender: &String, sender_password: &String, amount: u32)
        requires
            old(self).balance + amount <= u32::MAX,
        ensures
            final(self)@ == old(self)@.credited(sender@, sender_password@, amount as nat),
    {
        let entry = TransactionInfo {
            from_address: sender.clone(),
            from_password: sender_password.clone(),
            to_address: self.address.clone(),
            amount,
        };
        let ghost log = self@.transactions;
        self.balance += amount;
        self.transactions.push(entry);
        assert(self@.transactions =~= log.push(entry@));
    }

    /// Whether `password` is the one this wallet was created with.
    pub fn has_password(&self, password: &String) -> (same: bool)
        ensures
            same == (self@.password == password@),
    {
        self.password == *password
    }
}

/// Whether the wallet at position `i` of `wallets` has the address `address`.
pub open spec fn held_at(wallets: Seq<WalletView>, address: Seq<char>, i: int) -> bool {
    0 <= i < wallets.len() && wallets[i].address == address
}

/// Whether some wallet has the address `address`.
pub open spec fn known(wallets: Seq<WalletView>, address: Seq<char>) -> bool {
    exists|i: int| held_at(wallets, address, i)
}

/// Whether `i` is the last position at which a wallet has the address.
pub open spec fn is_last_held(wallets: Seq<WalletView>, address: Seq<char>, i: int) -> bool {
    held_at(wallets, address, i) && forall|j: int| i < j ==> !held_at(wallets, address, j)
}

/// Whether `i` is the first position at which a wallet has the address.
pub open spec fn is_first_held(wallets: Seq<WalletView>, address: Seq<char>, i: int) -> bool {
    held_at(wallets, address, i) && forall|j: int| j < i ==> !held_at(wallets, address, j)
}

/// The last position at which a wallet has the address: the one that a
/// lookup reads. Meaningful where the address is known.
pub open spec fn last_held(wallets: Seq<WalletView>, address: Seq<char>) -> int {
    choose|i: int| is_last_held(wallets, address, i)
}

/// The first position at which a wallet has the address: the one that an
/// update writes. Meaningful where the address is known.
pub open spec fn first_held(wallets: Seq<WalletView>, address: Seq<char>) -> int {
    choose|i: int| is_first_held(wallets, address, i)
}

/// The wallet that a lookup of `address` reads.
pub open spec fn found(wallets: Seq<WalletView>, address: Seq<char>) -> WalletView {
    wallets[last_held(wallets, address)]
}

/// The wallets after `wallet` was stored over the first one with its
/// address; unchanged where no wallet has that address.
pub open spec fn stored(wallets: Seq<WalletView>, wallet: WalletView) -> Seq<WalletView> {
    if known(wallets, wallet.address) {
        wallets.update(first_held(wallets, wallet.address), wallet)
    } else {
        wallets
    }
}

/// Whether no two wallets share an address.
pub open spec fn addresses_unique(wallets: Seq<WalletView>) -> bool {
    forall|i: int, j: int|
        0 <= i < j < wallets.len() ==> (#[trigger] wallets[i]).address != (#[trigger] wallets[j]).address
}

/// From position `k` on, where a wallet has the address, there is a last
/// position at which one has it.
proof fn lemma_last_exists(wallets: Seq<WalletView>, address: Seq<char>, k: int)
    requires
        held_at(wallets, address, k),
    ensures
        exists|i: int| is_last_held(wallets, address, i),
    decreases wallets.len() - k,
{
    if exists|j: int| k < j && held_at(wallets, address, j) {
        let j = choose|j: int| k < j && held_at(wallets, address, j);
        lemma_last_exists(wallets, address, j);
    } else {
        assert(is_last_held(wallets, address, k));
    }
}

/// Up to position `k`, where a wallet has the address, there is a first
/// position at which one has it.
proof fn lemma_first_exists(wallets: Seq<WalletView>, address: Seq<char>, k: int)
    requires
        held_at(wallets, address, k),
    ensures
        exists|i: int| is_first_held(wallets, address, i),
    decreases k,
{
    if exists|j: int| j < k && held_at(wallets, address, j) {
        let j = choose|j: int| j < k && held_at(wallets, address, j);
        lemma_first_exists(wallets, address, j);
    } else {
        assert(is_first_held(wallets, address, k));
    }
}

/// Where an address is known, `last_held` and `first_held` are positions
/// of wallets with that address, the last and the first of them.
pub proof fn lemma_known_positions(wallets: Seq<WalletView>, address: Seq<char>)
    requires
        known(wallets, address),
    ensures
        is_last_held(wallets, address, last_held(wallets, address)),
        is_first_held(wallets, address, first_held(wallets, address)),
        first_held(wallets, address) <= last_held(wallets, address),
{
    let k = choose|k: int| held_at(wallets, address, k);
    lemma_last_exists(wallets, address, k);
    lemma_first_exists(wallets, address, k);
}

/// The last position with the address is `last_held`.
pub proof fn lemma_last_held_is(wallets: Seq<WalletView>, address: Seq<char>, i: int)
    requires
        is_last_held(wallets, address, i),
    ensures
        known(wallets, address),
        last_held(wallets, address) == i,
{
    assert(held_at(wallets, address, i));
    lemma_known_positions(wallets, address);
}

/// The first position with the address is `first_held`.
pub proof fn lemma_first_held_is(wallets: Seq<WalletView>, address: Seq<char>, i: int)
    requires
        is_first_held(wallets, address, i),
    ensures
        known(wallets, address),
        first_held(wallets, address) == i,
{
    assert(held_at(wallets, address, i));
    lemma_known_positions(wallets, address);
}

/// Where no two wallets share an address, a lookup reads the wallet that an
/// update writes.
pub proof fn lemma_unique_position(wallets: Seq<WalletView>, address: Seq<char>)
    requires
        addresses_unique(wallets),
        known(wallets, address),
    ensures
        first_held(wallets, address) == last_held(wallets, address),
{
    lemma_known_positions(wallets, address);
}

/// A request to create a wallet.
pub struct WalletInfo {
    pub address: String,
    pub balance: i32,
    pub password: String,
}

impl WalletInfo {
    /// The reason for which the request is refused whatever wallets exist, if
    /// there is one: an empty address, else the reserved address, else a
    /// negative balance, else an empty password.
    pub open spec fn rejection(&self) -> Option<BlockChainError> {
        if self.address@.len() == 0 {
            Some(BlockChainError::EmptyAddress)
        } else if self.address@ == MINING_ADDRESS@ {
            Some(BlockChainError::MiningAddress)
        } else if self.balance < 0 {
            Some(BlockChainError::NegativeBalance)
        } else if self.password@.len() == 0 {
            Some(BlockChainError::EmptyPassword)
        } else {
            None
        }
    }

    /// Checks the request by itself.
    pub fn check_wallet_info(&self) -> (res: Result<(), BlockChainError>)
        ensures
            res is Ok <==> self.rejection() is None,
            res matches Err(e) ==> self.rejection() == Some(e),
    {
        if self.address.as_str().is_empty() {
            return Err(BlockChainError::EmptyAddress);
        }
        if self.address == String::from_str(MINING_ADDRESS) {
            return Err(BlockChainError::MiningAddress);
        }
        if self.balance < 0 {
            return Err(BlockChainError::NegativeBalance);
        }
        if self.password.as_str().is_empty() {
            return Err(BlockChainError::EmptyPassword);
        }
        Ok(())
    }
}

/// A request to add coins to a wallet.
pub struct WalletCoins {
    pub address: String,
    pub password: String,
    pub coins: u32,
}

/// A request to mine, naming the wallet that earns the reward.
pub struct MineRewardAddress {
    pub mining_reward_address: String,
}

/// The role in which an address is looked up; it decides which failure is
/// reported when no wallet has the address.
pub enum AddressType {
    TO,
    FROM,
    REWARD,
    GENERIC,
}

impl AddressType {
    /// The failure reported when an address looked up in this role names no wallet.
    pub open spec fn not_found(self) -> BlockChainError {
        match self {
            AddressType::TO => BlockChainError::InvalidToAddress,
            AddressType::FROM => BlockChainError::InvalidFromAddress,
            AddressType::REWARD => BlockChainError::InvalidRewardAddress,
            AddressType::GENERIC => BlockChainError::WalletNotFound,
        }
    }
}

} // verus!
