//! The ledger: the chain of blocks, the pending pool and the wallets.

use vstd::prelude::*;
use super::block::{current_timestamp, Block, BlockView};
use super::block_chain_errors::BlockChainError;
use super::hasher::leading_zeros;
use super::invariants::{
    lemma_creation_keeps_well_formed, lemma_funding_keeps_well_formed, lemma_initial_well_formed,
    lemma_mining_keeps_well_formed, lemma_transfer_keeps_well_formed, lemma_update_keeps_well_formed,
};
use super::transaction::{Transaction, TransactionInfo, TransactionInfoView, TransactionView};
use super::wallet::{
    addresses_unique, found, held_at, is_first_held, is_last_held, known, lemma_first_held_is,
    lemma_known_positions, lemma_last_held_is, stored, AddressType, Wallet, WalletCoins, WalletInfo,
    WalletView,
};

verus! {

/// The address reserved as the source of mining rewards; no wallet can be
/// created under it.
pub const MINING_ADDRESS: &'static str = "MINING";

/// The ledger: an append-only chain of blocks, the transfers waiting for the
/// next block, and the wallets with their current balances.
pub struct BlockChain {
    pub chain: Vec<Block>,
    pub difficulty: usize,
    pub pending_transactions: Vec<Transaction>,
    pub mining_reward: u32,
    pub name: String,
    pub wallets: Vec<Wallet>,
}

/// What a [`BlockChain`] holds, as mathematical values.
pub struct BlockChainView {
    pub chain: Seq<BlockView>,
    pub difficulty: nat,
    pub pending_transactions: Seq<TransactionView>,
    pub mining_reward: nat,
    pub name: Seq<char>,
    pub wallets: Seq<WalletView>,
}

/// Why the receiver of a pending transfer cannot be credited, if so: no
/// wallet has the receiver's address, else the balance would pass `u32::MAX`.
pub open spec fn credit_error(wallets: Seq<WalletView>, transfer: TransactionView) -> Option<
    BlockChainError,
> {
    if !known(wallets, transfer.to_wallet.address) {
        Some(BlockChainError::InvalidToAddress)
    } else if found(wallets, transfer.to_wallet.address).balance + transfer.amount > u32::MAX {
        Some(BlockChainError::BalanceOverflow)
    } else {
        None
    }
}

/// The wallets after the receiver of a pending transfer was credited. The
/// receiver is looked up by its address among the wallets as they are now;
/// the copy that travels with the transfer only names it.
pub open spec fn credit(wallets: Seq<WalletView>, transfer: TransactionView) -> Seq<WalletView> {
    stored(
        wallets,
        found(wallets, transfer.to_wallet.address).credited(
            transfer.from_wallet.address,
            transfer.from_wallet.password,
            transfer.amount,
        ),
    )
}

/// The first failure met when the receivers of `transfers` are credited one
/// after the other, if there is one.
pub open spec fn settlement_error(wallets: Seq<WalletView>, transfers: Seq<TransactionView>) -> Option<
    BlockChainError,
>
    decreases transfers.len(),
{
    if transfers.len() == 0 {
        None
    } else if credit_error(wallets, transfers.first()) is Some {
        credit_error(wallets, transfers.first())
    } else {
        settlement_error(credit(wallets, transfers.first()), transfers.drop_first())
    }
}

/// The wallets after the receivers of `transfers` were credited one after
/// the other, up to the first failure: the credits made before it stay.
pub open spec fn settled(wallets: Seq<WalletView>, transfers: Seq<TransactionView>) -> Seq<WalletView>
    decreases transfers.len(),
{
    if transfers.len() == 0 || credit_error(wallets, transfers.first()) is Some {
        wallets
    } else {
        settled(credit(wallets, transfers.first()), transfers.drop_first())
    }
}

/// Whether every block after the first carries the hash that its fields
/// call for and names the hash of the block before it.
pub open spec fn chain_valid(chain: Seq<BlockView>) -> bool {
    forall|i: int|
        1 <= i < chain.len() ==> (#[trigger] chain[i]).sealed() && chain[i].previous_hash == chain[i
            - 1].hash
}

impl View for BlockChain {
    type V = BlockChainView;

    open spec fn view(&self) -> BlockChainView {
        BlockChainView {
            chain: self.chain.deep_view(),
            difficulty: self.difficulty as nat,
            pending_transactions: self.pending_transactions.deep_view(),
            mining_reward: self.mining_reward as nat,
            name: self.name@,
            wallets: self.wallets.deep_view(),
        }
    }
}

impl BlockChainView {
    /// The ledger as it starts: a genesis block created at `timestamp`, no
    /// pending transfer, no wallet, difficulty 2 and a mining reward of 100.
    pub open spec fn initial(timestamp: nat) -> BlockChainView {
        BlockChainView {
            chain: seq![BlockView::fresh(0, timestamp, Seq::empty())],
            difficulty: 2,
            pending_transactions: Seq::empty(),
            mining_reward: 100,
            name: "Blockchain"@,
            wallets: Seq::empty(),
        }
    }

    /// What holds of every ledger that was set up as [`Self::initial`] says
    /// and then only created wallets, added coins, admitted transfers and
    /// mined.
    ///
    /// The chain starts with a genesis block. Each block stands at the
    /// position that its index names and carries the hash that its fields
    /// call for; after the genesis block, each names the hash of the block
    /// before it and meets the difficulty. No two wallets share an address,
    /// and each wallet is sound. The receiver of each pending transfer has a
    /// wallet.
    pub open spec fn well_formed(self) -> bool {
        &&& self.chain.len() > 0
        &&& self.chain[0].is_genesis()
        &&& forall|i: int|
            0 <= i < self.chain.len() ==> (#[trigger] self.chain[i]).index == i
                && self.chain[i].sealed()
        &&& chain_valid(self.chain)
        &&& forall|i: int|
            1 <= i < self.chain.len() ==> leading_zeros(
                (#[trigger] self.chain[i]).hash,
                self.difficulty,
            )
        &&& addresses_unique(self.wallets)
        &&& forall|i: int| 0 <= i < self.wallets.len() ==> (#[trigger] self.wallets[i]).sound()
        &&& forall|k: int|
            0 <= k < self.pending_transactions.len() ==> known(
                self.wallets,
                (#[trigger] self.pending_transactions[k]).to_wallet.address,
            )
    }

    /// The ledger with other wallets and everything else as it is.
    pub open spec fn with_wallets(self, wallets: Seq<WalletView>) -> BlockChainView {
        BlockChainView { wallets, ..self }
    }

    /// Why a request to create a wallet is refused, if it is: for what the
    /// request itself holds, else because the address is taken.
    pub open spec fn creation_error(self, request: WalletInfo) -> Option<BlockChainError> {
        if request.rejection() is Some {
            request.rejection()
        } else if known(self.wallets, request.address@) {
            Some(BlockChainError::WalletAlreadyExists)
        } else {
            None
        }
    }

    /// The ledger after a request to create a wallet: with the new wallet
    /// behind the others, or unchanged where the request is refused.
    pub open spec fn after_creation(self, request: WalletInfo) -> BlockChainView {
        if self.creation_error(request) is Some {
            self
        } else {
            self.with_wallets(
                self.wallets.push(
                    WalletView::fresh(request.address@, request.balance as int, request.password@),
                ),
            )
        }
    }

    /// Why access to the wallet at `address` is refused, if it is: no wallet
    /// has the address, else the password is not the wallet's.
    pub open spec fn access_error(self, address: Seq<char>, password: Seq<char>) -> Option<
        BlockChainError,
    > {
        if !known(self.wallets, address) {
            Some(BlockChainError::WalletNotFound)
        } else if found(self.wallets, address).password != password {
            Some(BlockChainError::WrongPassword)
        } else {
            None
        }
    }

    /// Why a transfer request is refused, if it is. The checks are made in
    /// this order and the first that fails decides: the request by itself,
    /// the sender's wallet, the sender's password, the receiver's wallet, the
    /// sender's balance.
    pub open spec fn transfer_error(self, request: TransactionInfoView) -> Option<BlockChainError> {
        if request.rejection() is Some {
            request.rejection()
        } else if !known(self.wallets, request.from_address) {
            Some(BlockChainError::InvalidFromAddress)
        } else if found(self.wallets, request.from_address).password != request.from_password {
            Some(BlockChainError::WrongPassword)
        } else if !known(self.wallets, request.to_address) {
            Some(BlockChainError::InvalidToAddress)
        } else if found(self.wallets, request.from_address).balance < request.amount {
            Some(BlockChainError::NotEnoughCoins)
        } else {
            None
        }
    }

    /// The transfer that an admitted request puts into the pending pool. It
    /// holds the sender's wallet after the debit and the receiver's wallet
    /// as it stands. A sender at the reserved mining address is not debited.
    pub open spec fn admitted(self, request: TransactionInfoView) -> TransactionView {
        let sender = found(self.wallets, request.from_address);
        let receiver = found(self.wallets, request.to_address);
        TransactionView {
            from_wallet: if sender.address == MINING_ADDRESS@ {
                sender
            } else {
                sender.debited(receiver.address, request.amount)
            },
            to_wallet: receiver,
            amount: request.amount,
        }
    }

    /// The ledger after a transfer request: the sender is debited at once
    /// and the transfer waits in the pending pool, the receiver is not
    /// credited yet; or nothing changes where the request is refused.
    pub open spec fn after_transfer(self, request: TransactionInfoView) -> BlockChainView {
        if self.transfer_error(request) is Some {
            self
        } else {
            let transfer = self.admitted(request);
            BlockChainView {
                wallets: if transfer.from_wallet.address == MINING_ADDRESS@ {
                    self.wallets
                } else {
                    stored(self.wallets, transfer.from_wallet)
                },
                pending_transactions: self.pending_transactions.push(transfer),
                ..self
            }
        }
    }

    /// The block that mining at the time `timestamp` starts from: it holds
    /// the pending transfers, stands at the end of the chain, is linked to
    /// the last block and hashed, with nonce zero.
    pub open spec fn candidate(self, timestamp: nat) -> BlockView {
        let block = BlockView::fresh(self.chain.len(), timestamp, self.pending_transactions);
        if self.chain.len() > 0 {
            block.linked(self.chain.last().hash).rehashed()
        } else {
            block
        }
    }

    /// The transfer that pays the mining reward to the wallet at
    /// `reward_address`, as found among `wallets`.
    pub open spec fn reward(self, wallets: Seq<WalletView>, reward_address: Seq<char>) -> TransactionView {
        TransactionView {
            from_wallet: WalletView::fresh(MINING_ADDRESS@, 0, Seq::empty()),
            to_wallet: found(wallets, reward_address),
            amount: self.mining_reward,
        }
    }

    /// Why mining at the time `timestamp` for the wallet at `reward_address`
    /// fails, if it does. In this order: nothing is pending; a receiver
    /// cannot be credited; no wallet has the reward address; no nonce gives
    /// the block a hash that meets the difficulty.
    pub open spec fn mining_error(self, reward_address: Seq<char>, timestamp: nat) -> Option<
        BlockChainError,
    > {
        let wallets = settled(self.wallets, self.pending_transactions);
        if self.pending_transactions.len() == 0 {
            Some(BlockChainError::NoPendingTransactions)
        } else if settlement_error(self.wallets, self.pending_transactions) is Some {
            settlement_error(self.wallets, self.pending_transactions)
        } else if !known(wallets, reward_address) {
            Some(BlockChainError::InvalidRewardAddress)
        } else if !leading_zeros(self.candidate(timestamp).mined(self.difficulty).hash, self.difficulty) {
            Some(BlockChainError::NonceExhausted)
        } else {
            None
        }
    }

    /// The ledger after mining at the time `timestamp` for the wallet at
    /// `reward_address`. With nothing pending, nothing changes. Else the
    /// receivers are credited, up to the first that cannot be. If mining
    /// fails, that is all. If it succeeds, the mined block is appended and
    /// the pending pool holds the reward transfer and nothing else: the
    /// reward itself is credited when that transfer is mined.
    pub open spec fn after_mining(self, reward_address: Seq<char>, timestamp: nat) -> BlockChainView {
        let wallets = settled(self.wallets, self.pending_transactions);
        if self.pending_transactions.len() == 0 {
            self
        } else if self.mining_error(reward_address, timestamp) is Some {
            self.with_wallets(wallets)
        } else {
            BlockChainView {
                chain: self.chain.push(self.candidate(timestamp).mined(self.difficulty)),
                pending_transactions: seq![self.reward(wallets, reward_address)],
                wallets,
                ..self
            }
        }
    }

    /// Whether `after` and `res` are what mining at the time `timestamp` for
    /// the wallet at `reward_address` makes of the ledger and returns.
    pub open spec fn mines_to(
        self,
        reward_address: Seq<char>,
        timestamp: nat,
        after: BlockChainView,
        res: Result<String, BlockChainError>,
    ) -> bool {
        &&& after == self.after_mining(reward_address, timestamp)
        &&& match res {
            Ok(text) => self.mining_error(reward_address, timestamp) is None && text@
                == "Transactions successfully mined"@,
            Err(e) => self.mining_error(reward_address, timestamp) == Some(e),
        }
    }

    /// Why a request to add coins is refused, if it is: access is refused,
    /// else the balance would pass `u32::MAX`.
    pub open spec fn funding_error(self, request: WalletCoins) -> Option<BlockChainError> {
        if self.access_error(request.address@, request.password@) is Some {
            self.access_error(request.address@, request.password@)
        } else if found(self.wallets, request.address@).balance + request.coins > u32::MAX {
            Some(BlockChainError::BalanceOverflow)
        } else {
            None
        }
    }

    /// The ledger after a request to add coins: the wallet's balance is
    /// raised by the coins, or nothing changes where the request is refused.
    pub open spec fn after_funding(self, request: WalletCoins) -> BlockChainView {
        if self.funding_error(request) is Some {
            self
        } else {
            let wallet = found(self.wallets, request.address@);
            self.with_wallets(
                stored(self.wallets, WalletView { balance: wallet.balance + request.coins, ..wallet }),
            )
        }
    }
}

impl Default for BlockChain {
    /// The ledger as it starts, with a genesis block created now.
    fn default() -> (ledger: Self)
        ensures
            ledger@ == BlockChainView::initial(ledger@.chain[0].timestamp),
            ledger@.well_formed(),
    {
        let none: Vec<Transaction> = Vec::new();
        assert(none.deep_view() =~= Seq::empty());
        let genesis_block = Block::new(0, &none);
        BlockChain::starting_with(genesis_block)
    }
}

impl BlockChain {
    /// The ledger as it starts, with a genesis block created at the time
    /// `timestamp`, in seconds since the epoch.
    pub fn new_at(timestamp: u64) -> (ledger: Self)
        ensures
            ledger@ == BlockChainView::initial(timestamp as nat),
            ledger@.well_formed(),
    {
        let none: Vec<Transaction> = Vec::new();
        assert(none.deep_view() =~= Seq::empty());
        let genesis_block = Block::new_at(0, timestamp, &none);
        BlockChain::starting_with(genesis_block)
    }

    /// The ledger as it starts, on the given genesis block.
    fn starting_with(genesis_block: Block) -> (ledger: Self)
        requires
            genesis_block@ == BlockView::fresh(0, genesis_block@.timestamp, Seq::empty()),
        ensures
            ledger@ == BlockChainView::initial(genesis_block@.timestamp),
            ledger@.well_formed(),
    {
        proof {
            lemma_initial_well_formed(genesis_block@.timestamp);
        }
        let mut chain: Vec<Block> = Vec::new();
        chain.push(genesis_block);
        let ledger = BlockChain {
            chain,
            difficulty: 2,
            pending_transactions: Vec::new(),
            mining_reward: 100,
            name: String::from_str("Blockchain"),
            wallets: Vec::new(),
        };
        assert(ledger@.chain =~= seq![genesis_block@]);
        assert(ledger@.pending_transactions =~= Seq::empty());
        assert(ledger@.wallets =~= Seq::empty());
        ledger
    }

    /// Looks up the wallet with the address `address` and returns a copy of
    /// it: of the last one, should several have the address. Where there is
    /// none, `address_type` decides the failure.
    pub fn get_wallet(&self, address: &String, address_type: AddressType) -> (res: Result<
        Wallet,
        BlockChainError,
    >)
        ensures
            res is Ok <==> known(self@.wallets, address@),
            res matches Ok(wallet) ==> wallet@ == found(self@.wallets, address@),
            res matches Err(e) ==> e == address_type.not_found(),
    {
        let mut i: usize = self.wallets.len();
        while i > 0
            invariant
                i <= self.wallets.len(),
                forall|j: int| i <= j ==> !held_at(self@.wallets, address@, j),
            decreases i,
        {
            i -= 1;
            if self.wallets[i].address == *address {
                proof {
                    assert(is_last_held(self@.wallets, address@, i as int));
                    lemma_last_held_is(self@.wallets, address@, i as int);
                }
                return Ok(self.wallets[i].clone());
            }
        }
        assert(!known(self@.wallets, address@));
        match address_type {
            AddressType::TO => Err(BlockChainError::InvalidToAddress),
            AddressType::FROM => Err(BlockChainError::InvalidFromAddress),
            AddressType::REWARD => Err(BlockChainError::InvalidRewardAddress),
            AddressType::GENERIC => Err(BlockChainError::WalletNotFound),
        }
    }

    /// Mines the pending transfers into a new block, created now, and
    /// queues the reward for the wallet at `mining_reward_address`. What it
    /// does is what [`Self::mine_pending_transactions_at`] does at the time
    /// that the system clock gives, or at time zero if the clock stands
    /// before the epoch.
    pub fn mine_pending_transactions(&mut self, mining_reward_address: &String) -> (res: Result<
        String,
        BlockChainError,
    >)
        ensures
            exists|timestamp: nat|
                old(self)@.mines_to(mining_reward_address@, timestamp, final(self)@, res),
            old(self)@.pending_transactions.len() == 0 ==> final(self)@ == old(self)@ && res
                == Err::<String, _>(BlockChainError::NoPendingTransactions),
            res is Ok ==> final(self)@.chain.len() == old(self)@.chain.len() + 1 && leading_zeros(
                final(self)@.chain.last().hash,
                old(self)@.difficulty,
            ),
            old(self)@.well_formed() ==> final(self)@.well_formed(),
    {
        let timestamp: u64 = current_timestamp();
        let res = self.mine_pending_transactions_at(mining_reward_address, timestamp);
        assert(old(self)@.mines_to(mining_reward_address@, timestamp as nat, self@, res));
        res
    }

    /// Mines the pending transfers into a new block created at the time
    /// `timestamp`, in seconds since the epoch.
    ///
    /// Fails with `NoPendingTransactions`, and changes nothing, if nothing
    /// is pending. Else credits the receiver of each pending transfer, in
    /// order, looking the receiver up among the wallets as they are now, and
    /// logs the transfer there; it stops at the first receiver that is
    /// missing (`InvalidToAddress`) or whose balance would pass `u32::MAX`
    /// (`BalanceOverflow`), and the credits made before stay. Then fails
    /// with `InvalidRewardAddress` if no wallet has `mining_reward_address`.
    /// Then builds the block, links it to the last block, and mines it at
    /// the ledger's difficulty; fails with `NonceExhausted` if no nonce
    /// serves. Else appends the block and leaves in the pending pool one
    /// transfer, of the mining reward from the reserved address to the
    /// reward wallet, which is credited when it is mined in turn.
    pub fn mine_pending_transactions_at(
        &mut self,
        mining_reward_address: &String,
        timestamp: u64,
    ) -> (res: Result<String, BlockChainError>)
        ensures
            old(self)@.mines_to(mining_reward_address@, timestamp as nat, final(self)@, res),
            old(self)@.well_formed() ==> final(self)@.well_formed(),
    {
        proof {
            if old(self)@.well_formed() {
                lemma_mining_keeps_well_formed(old(self)@, mining_reward_address@, timestamp as nat);
            }
        }
        if self.pending_transactions.is_empty() {
            return Err(BlockChainError::NoPendingTransactions);
        }
        self.settle_pending()?;
        let mining_reward_wallet = self.get_wallet(mining_reward_address, AddressType::REWARD)?;

        let height: usize = self.chain.len();
        let mut block = Block::new_at(height, timestamp, &self.pending_transactions);
        if height > 0 {
            block.set_previous_hash(self.chain[height - 1].hash.as_str());
            block.set_hash();
        }
        block.mine_block(self.difficulty);
        if !block.meets(self.difficulty) {
            return Err(BlockChainError::NonceExhausted);
        }
        let ghost chain = self@.chain;
        self.chain.push(block);
        assert(self@.chain =~= chain.push(block@));

        let reward = Transaction::new(
            Wallet::new(String::from_str(MINING_ADDRESS), 0, String::new()),
            mining_reward_wallet,
            self.mining_reward,
        );
        let mut pool: Vec<Transaction> = Vec::new();
        pool.push(reward);
        assert(pool.deep_view() =~= seq![reward@]);
        self.pending_transactions = pool;
        Ok(String::from_str("Transactions successfully mined"))
    }

    /// Credits the receiver of each pending transfer, in order, and stops at
    /// the first that cannot be credited.
    fn settle_pending(&mut self) -> (res: Result<(), BlockChainError>)
        ensures
            final(self)@ == old(self)@.with_wallets(
                settled(old(self)@.wallets, old(self)@.pending_transactions),
            ),
            res is Ok <==> settlement_error(old(self)@.wallets, old(self)@.pending_transactions)
                is None,
            res matches Err(e) ==> settlement_error(
                old(self)@.wallets,
                old(self)@.pending_transactions,
            ) == Some(e),
    {
        let ghost pending = self@.pending_transactions;
        let count: usize = self.pending_transactions.len();
        let mut i: usize = 0;
        assert(pending.skip(0) =~= pending);
        while i < count
            invariant
                i <= count,
                count == pending.len(),
                pending == old(self)@.pending_transactions,
                self@ == old(self)@.with_wallets(self@.wallets),
                settled(self@.wallets, pending.skip(i as int)) == settled(old(self)@.wallets, pending),
                settlement_error(self@.wallets, pending.skip(i as int)) == settlement_error(
                    old(self)@.wallets,
                    pending,
                ),
            decreases count - i,
        {
            let transfer = &self.pending_transactions[i];
            let sender = transfer.from_wallet.address.clone();
            let sender_password = transfer.from_wallet.password.clone();
            let receiver = transfer.to_wallet.address.clone();
            let amount: u32 = transfer.amount;
            proof {
                assert(pending.skip(i as int).first() == pending[i as int]);
                assert(pending.skip(i as int).drop_first() =~= pending.skip(i + 1));
                assert(pending[i as int] == transfer@);
            }
            let mut to_wallet = self.get_wallet(&receiver, AddressType::TO)?;
            if amount > u32::MAX - to_wallet.balance {
                return Err(BlockChainError::BalanceOverflow);
            }
            to_wallet.credit(&sender, &sender_password, amount);
            proof {
                lemma_known_positions(self@.wallets, receiver@);
            }
            self.update_wallet(to_wallet)?;
            i += 1;
        }
        Ok(())
    }

    /// Checks the chain against tampering: every block after the first must
    /// carry the hash that its fields call for, and must name the hash of
    /// the block before it. Nothing is repaired.
    pub fn is_valid(&self) -> (valid: bool)
        ensures
            valid == chain_valid(self@.chain),
            self@.well_formed() ==> valid,
    {
        let count: usize = self.chain.len();
        let mut i: usize = 1;
        while i < count
            invariant
                1 <= i,
                count == self.chain.len(),
                forall|j: int|
                    1 <= j < i && j < count ==> (#[trigger] self@.chain[j]).sealed()
                        && self@.chain[j].previous_hash == self@.chain[j - 1].hash,
            decreases count - i,
        {
            let block = &self.chain[i];
            let previous = &self.chain[i - 1];
            assert(self@.chain[i as int] == block@);
            assert(self@.chain[i - 1] == previous@);
            if !block.is_sealed() || block.previous_hash != previous.hash {
                return false;
            }
            i += 1;
        }
        true
    }

    /// A copy of the chain, first block first.
    pub fn get_chain(&self) -> (chain: Vec<Block>)
        ensures
            chain.deep_view() == self@.chain,
    {
        let chain = self.chain.clone();
        assert(chain.deep_view() =~= self.chain.deep_view());
        chain
    }

    /// Admits a transfer to the pending pool. The sender is debited and the
    /// transfer logged in the sender's wallet at once; the receiver is
    /// credited when the transfer is mined. A refused request changes nothing.
    pub fn create_transaction(&mut self, transaction: TransactionInfo) -> (res: Result<
        String,
        BlockChainError,
    >)
        ensures
            final(self)@ == old(self)@.after_transfer(transaction@),
            res is Ok <==> old(self)@.transfer_error(transaction@) is None,
            res matches Ok(text) ==> text@ == "Transaction successfully made"@,
            res matches Err(e) ==> old(self)@.transfer_error(transaction@) == Some(e),
            old(self)@.well_formed() ==> final(self)@.well_formed(),
    {
        proof {
            if old(self)@.well_formed() {
                lemma_transfer_keeps_well_formed(old(self)@, transaction@);
            }
        }
        transaction.check_transaction_info()?;
        let mut from_wallet = self.get_wallet(&transaction.from_address, AddressType::FROM)?;
        if !from_wallet.has_password(&transaction.from_password) {
            return Err(BlockChainError::WrongPassword);
        }
        let to_wallet = self.get_wallet(&transaction.to_address, AddressType::TO)?;
        if from_wallet.balance < transaction.amount {
            return Err(BlockChainError::NotEnoughCoins);
        }
        proof {
            lemma_known_positions(self@.wallets, transaction@.from_address);
        }
        if from_wallet.address != String::from_str(MINING_ADDRESS) {
            from_wallet.debit(&to_wallet.address, transaction.amount);
            self.update_wallet(from_wallet.clone())?;
        }
        let ghost pending = self@.pending_transactions;
        let new_transaction = Transaction::new(from_wallet, to_wallet, transaction.amount);
        self.pending_transactions.push(new_transaction);
        assert(self@.pending_transactions =~= pending.push(new_transaction@));
        Ok(String::from_str("Transaction successfully made"))
    }

    /// Creates a wallet with an empty log. The request is checked by itself
    /// first; then the address must not be taken.
    pub fn create_wallet(&mut self, wallet: WalletInfo) -> (res: Result<String, BlockChainError>)
        ensures
            final(self)@ == old(self)@.after_creation(wallet),
            res is Ok <==> old(self)@.creation_error(wallet) is None,
            res matches Ok(text) ==> text@ == "Wallet created!"@,
            res matches Err(e) ==> old(self)@.creation_error(wallet) == Some(e),
            old(self)@.well_formed() ==> final(self)@.well_formed(),
    {
        proof {
            if old(self)@.well_formed() {
                lemma_creation_keeps_well_formed(old(self)@, wallet);
            }
        }
        wallet.check_wallet_info()?;
        if self.get_wallet(&wallet.address, AddressType::GENERIC).is_ok() {
            return Err(BlockChainError::WalletAlreadyExists);
        }
        let ghost before = self@.wallets;
        let new_wallet = Wallet::new(wallet.address, wallet.balance as u32, wallet.password);
        self.wallets.push(new_wallet);
        assert(self@.wallets =~= before.push(new_wallet@));
        Ok(String::from_str("Wallet created!"))
    }

    /// The balance of the wallet at `address`, for who knows its password.
    pub fn get_balance_of_wallet(&self, address: &String, password: &String) -> (res: Result<
        u32,
        BlockChainError,
    >)
        ensures
            res is Ok <==> self@.access_error(address@, password@) is None,
            res matches Ok(balance) ==> balance == found(self@.wallets, address@).balance,
            res matches Err(e) ==> self@.access_error(address@, password@) == Some(e),
    {
        let wallet = self.get_wallet(address, AddressType::GENERIC)?;
        if !wallet.has_password(password) {
            return Err(BlockChainError::WrongPassword);
        }
        Ok(wallet.balance)
    }

    /// The log of the wallet at `address`, oldest entry first, for who knows
    /// its password.
    pub fn get_transactions_of_wallet(&self, address: &String, password: &String) -> (res: Result<
        Vec<TransactionInfo>,
        BlockChainError,
    >)
        ensures
            res is Ok <==> self@.access_error(address@, password@) is None,
            res matches Ok(log) ==> log.deep_view() == found(self@.wallets, address@).transactions,
            res matches Err(e) ==> self@.access_error(address@, password@) == Some(e),
    {
        let wallet = self.get_wallet(address, AddressType::GENERIC)?;
        if !wallet.has_password(password) {
            return Err(BlockChainError::WrongPassword);
        }
        Ok(wallet.transactions)
    }

    /// Adds coins to the wallet at the request's address, for who knows its
    /// password. Fails with `BalanceOverflow` where the balance would pass
    /// `u32::MAX`.
    pub fn add_coins(&mut self, add_coins: WalletCoins) -> (res: Result<String, BlockChainError>)
        ensures
            final(self)@ == old(self)@.after_funding(add_coins),
            res is Ok <==> old(self)@.funding_error(add_coins) is None,
            res matches Ok(text) ==> text@ == "Coins added!"@,
            res matches Err(e) ==> old(self)@.funding_error(add_coins) == Some(e),
            old(self)@.well_formed() ==> final(self)@.well_formed(),
    {
        proof {
            if old(self)@.well_formed() {
                lemma_funding_keeps_well_formed(old(self)@, add_coins);
            }
        }
        let mut wallet = self.get_wallet(&add_coins.address, AddressType::GENERIC)?;
        if !wallet.has_password(&add_coins.password) {
            return Err(BlockChainError::WrongPassword);
        }
        if add_coins.coins > u32::MAX - wallet.balance {
            return Err(BlockChainError::BalanceOverflow);
        }
        wallet.balance += add_coins.coins;
        proof {
            lemma_known_positions(self@.wallets, add_coins.address@);
        }
        self.update_wallet(wallet)?;
        Ok(String::from_str("Coins added!"))
    }

    /// Stores `wallet` in place of the wallet that has its address: of the
    /// first one, should several have it. Fails with `WalletNotFound`, and
    /// changes nothing, where there is none.
    pub fn update_wallet(&mut self, wallet: Wallet) -> (res: Result<(), BlockChainError>)
        ensures
            final(self)@ == old(self)@.with_wallets(stored(old(self)@.wallets, wallet@)),
            res is Ok <==> known(old(self)@.wallets, wallet@.address),
            res matches Err(e) ==> e == BlockChainError::WalletNotFound,
            old(self)@.well_formed() && wallet@.sound() ==> final(self)@.well_formed(),
    {
        let count: usize = self.wallets.len();
        let mut i: usize = 0;
        while i < count
            invariant
                i <= count,
                count == self.wallets.len(),
                *self == *old(self),
                forall|j: int| j < i ==> !held_at(self@.wallets, wallet@.address, j),
            decreases count - i,
        {
            if self.wallets[i].address == wallet.address {
                proof {
                    assert(is_first_held(self@.wallets, wallet@.address, i as int));
                    lemma_first_held_is(self@.wallets, wallet@.address, i as int);
                    if self@.well_formed() && wallet@.sound() {
                        lemma_update_keeps_well_formed(self@, wallet@);
                    }
                }
                let ghost before = self@.wallets;
                self.wallets[i] = wallet;
                assert(self@.wallets =~= before.update(i as int, wallet@));
                return Ok(());
            }
            i += 1;
        }
        assert(!known(self@.wallets, wallet@.address));
        Err(BlockChainError::WalletNotFound)
    }
}

} // verus!
