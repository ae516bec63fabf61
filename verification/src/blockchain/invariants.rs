//! What every operation of the ledger keeps true.

use vstd::prelude::*;
use super::block::lemma_mined;
use super::block_chain::{
    chain_valid, credit, credit_error, settled, settlement_error, BlockChainView,
};
use super::block_chain_errors::BlockChainError;
use super::hasher::leading_zeros;
use super::transaction::{TransactionInfoView, TransactionView};
use super::wallet::{
    addresses_unique, found, held_at, known, lemma_known_positions, stored,
    WalletCoins, WalletInfo, WalletView,
};

verus! {

/// Whether `after` holds as many wallets as `before`, under the same
/// addresses in the same order.
pub open spec fn same_addresses(before: Seq<WalletView>, after: Seq<WalletView>) -> bool {
    &&& before.len() == after.len()
    &&& forall|i: int| 0 <= i < before.len() ==> (#[trigger] after[i]).address == before[i].address
}

/// Wallets under the same addresses know the same addresses.
pub proof fn lemma_same_addresses_known(
    before: Seq<WalletView>,
    after: Seq<WalletView>,
    address: Seq<char>,
)
    requires
        same_addresses(before, after),
    ensures
        known(after, address) == known(before, address),
        addresses_unique(before) ==> addresses_unique(after),
{
    if known(before, address) {
        let i = choose|i: int| held_at(before, address, i);
        assert(held_at(after, address, i));
    }
    if known(after, address) {
        let i = choose|i: int| held_at(after, address, i);
        assert(held_at(before, address, i));
    }
    if addresses_unique(before) {
        assert forall|i: int, j: int| 0 <= i < j < after.len() implies (#[trigger] after[i]).address != (
        #[trigger] after[j]).address by {
            assert(before[i].address != before[j].address);
        }
    }
}

/// Storing a wallet leaves every address where it is, and changes at most
/// the one wallet that it replaces.
pub proof fn lemma_stored(wallets: Seq<WalletView>, wallet: WalletView)
    ensures
        same_addresses(wallets, stored(wallets, wallet)),
        (forall|i: int| 0 <= i < wallets.len() ==> (#[trigger] wallets[i]).sound()) && wallet.sound()
            ==> forall|i: int|
            0 <= i < wallets.len() ==> (#[trigger] stored(wallets, wallet)[i]).sound(),
{
    if known(wallets, wallet.address) {
        lemma_known_positions(wallets, wallet.address);
    }
}

/// Settling pending transfers leaves every address where it is and every
/// sound wallet sound.
pub proof fn lemma_settled(wallets: Seq<WalletView>, transfers: Seq<TransactionView>)
    ensures
        same_addresses(wallets, settled(wallets, transfers)),
        (forall|i: int| 0 <= i < wallets.len() ==> (#[trigger] wallets[i]).sound()) ==> forall|i: int|
            0 <= i < wallets.len() ==> (#[trigger] settled(wallets, transfers)[i]).sound(),
    decreases transfers.len(),
{
    if transfers.len() == 0 || credit_error(wallets, transfers.first()) is Some {
    } else {
        let transfer = transfers.first();
        let receiver = found(wallets, transfer.to_wallet.address);
        let next = credit(wallets, transfer);
        lemma_known_positions(wallets, transfer.to_wallet.address);
        lemma_stored(
            wallets,
            receiver.credited(transfer.from_wallet.address, transfer.from_wallet.password, transfer.amount),
        );
        lemma_settled(next, transfers.drop_first());
        let last = settled(next, transfers.drop_first());
        assert(same_addresses(wallets, last)) by {
            assert forall|i: int| 0 <= i < wallets.len() implies (#[trigger] last[i]).address
                == wallets[i].address by {
                assert(next[i].address == wallets[i].address);
            }
        }
        if forall|i: int| 0 <= i < wallets.len() ==> (#[trigger] wallets[i]).sound() {
            assert(receiver.sound());
            assert forall|i: int| 0 <= i < wallets.len() implies (#[trigger] last[i]).sound() by {
                assert(next[i].sound());
            }
        }
    }
}

/// Where the receiver of each transfer has a wallet, settling them never
/// fails for want of a receiver.
pub proof fn lemma_settlement_finds_receivers(wallets: Seq<WalletView>, transfers: Seq<TransactionView>)
    requires
        forall|k: int| 0 <= k < transfers.len() ==> known(wallets, (#[trigger] transfers[k]).to_wallet.address),
    ensures
        settlement_error(wallets, transfers) != Some(BlockChainError::InvalidToAddress),
    decreases transfers.len(),
{
    if transfers.len() > 0 {
        assert(known(wallets, transfers[0].to_wallet.address));
        if credit_error(wallets, transfers.first()) is None {
            let transfer = transfers.first();
            let next = credit(wallets, transfer);
            lemma_stored(
                wallets,
                found(wallets, transfer.to_wallet.address).credited(
                    transfer.from_wallet.address,
                    transfer.from_wallet.password,
                    transfer.amount,
                ),
            );
            let rest = transfers.drop_first();
            assert forall|k: int| 0 <= k < rest.len() implies known(next, (#[trigger] rest[k]).to_wallet.address) by {
                assert(rest[k] == transfers[k + 1]);
                lemma_same_addresses_known(wallets, next, rest[k].to_wallet.address);
            }
            lemma_settlement_finds_receivers(next, rest);
        }
    }
}

/// The ledger starts well formed.
pub proof fn lemma_initial_well_formed(timestamp: nat)
    ensures
        BlockChainView::initial(timestamp).well_formed(),
{
}

/// Creating a wallet keeps the ledger well formed.
pub proof fn lemma_creation_keeps_well_formed(ledger: BlockChainView, request: WalletInfo)
    requires
        ledger.well_formed(),
    ensures
        ledger.after_creation(request).well_formed(),
{
    let after = ledger.after_creation(request);
    if ledger.creation_error(request) is None {
        let added = ledger.wallets.len() as int;
        assert forall|i: int, j: int| 0 <= i < j < after.wallets.len() implies (
        #[trigger] after.wallets[i]).address != (#[trigger] after.wallets[j]).address by {
            if j == added {
                assert(!held_at(ledger.wallets, request.address@, i));
            } else {
                assert(ledger.wallets[i].address != ledger.wallets[j].address);
            }
        }
        assert forall|i: int| 0 <= i < after.wallets.len() implies (#[trigger] after.wallets[i]).sound() by {
            if i < added {
                assert(ledger.wallets[i].sound());
            }
        }
        assert forall|k: int| 0 <= k < after.pending_transactions.len() implies known(
            after.wallets,
            (#[trigger] after.pending_transactions[k]).to_wallet.address,
        ) by {
            let address = ledger.pending_transactions[k].to_wallet.address;
            let i = choose|i: int| held_at(ledger.wallets, address, i);
            assert(held_at(after.wallets, address, i));
        }
    }
}

/// Storing a sound wallet keeps the ledger well formed.
pub proof fn lemma_update_keeps_well_formed(ledger: BlockChainView, wallet: WalletView)
    requires
        ledger.well_formed(),
        wallet.sound(),
    ensures
        ledger.with_wallets(stored(ledger.wallets, wallet)).well_formed(),
{
    let after = ledger.with_wallets(stored(ledger.wallets, wallet));
    lemma_stored(ledger.wallets, wallet);
    lemma_same_addresses_known(ledger.wallets, after.wallets, wallet.address);
    assert forall|k: int| 0 <= k < after.pending_transactions.len() implies known(
        after.wallets,
        (#[trigger] after.pending_transactions[k]).to_wallet.address,
    ) by {
        lemma_same_addresses_known(
            ledger.wallets,
            after.wallets,
            ledger.pending_transactions[k].to_wallet.address,
        );
    }
}

/// Adding coins keeps the ledger well formed.
pub proof fn lemma_funding_keeps_well_formed(ledger: BlockChainView, request: WalletCoins)
    requires
        ledger.well_formed(),
    ensures
        ledger.after_funding(request).well_formed(),
{
    let after = ledger.after_funding(request);
    if ledger.funding_error(request) is None {
        let wallet = found(ledger.wallets, request.address@);
        lemma_known_positions(ledger.wallets, request.address@);
        lemma_stored(ledger.wallets, WalletView { balance: wallet.balance + request.coins, ..wallet });
        lemma_same_addresses_known(ledger.wallets, after.wallets, request.address@);
        assert forall|k: int| 0 <= k < after.pending_transactions.len() implies known(
            after.wallets,
            (#[trigger] after.pending_transactions[k]).to_wallet.address,
        ) by {
            lemma_same_addresses_known(
                ledger.wallets,
                after.wallets,
                ledger.pending_transactions[k].to_wallet.address,
            );
        }
    }
}

/// Admitting a transfer keeps the ledger well formed: in particular the
/// debit leaves no balance below zero.
pub proof fn lemma_transfer_keeps_well_formed(ledger: BlockChainView, request: TransactionInfoView)
    requires
        ledger.well_formed(),
    ensures
        ledger.after_transfer(request).well_formed(),
{
    let after = ledger.after_transfer(request);
    if ledger.transfer_error(request) is None {
        let transfer = ledger.admitted(request);
        lemma_known_positions(ledger.wallets, request.from_address);
        lemma_known_positions(ledger.wallets, request.to_address);
        lemma_stored(ledger.wallets, transfer.from_wallet);
        assert(same_addresses(ledger.wallets, after.wallets));
        assert forall|k: int| 0 <= k < after.pending_transactions.len() implies known(
            after.wallets,
            (#[trigger] after.pending_transactions[k]).to_wallet.address,
        ) by {
            lemma_same_addresses_known(
                ledger.wallets,
                after.wallets,
                after.pending_transactions[k].to_wallet.address,
            );
            if k < ledger.pending_transactions.len() {
                assert(after.pending_transactions[k] == ledger.pending_transactions[k]);
            }
        }
        lemma_same_addresses_known(ledger.wallets, after.wallets, request.from_address);
    }
}

/// Mining keeps the ledger well formed, whether it succeeds or not, and on
/// a well-formed ledger it never fails for want of a receiver.
pub proof fn lemma_mining_keeps_well_formed(
    ledger: BlockChainView,
    reward_address: Seq<char>,
    timestamp: nat,
)
    requires
        ledger.well_formed(),
    ensures
        ledger.after_mining(reward_address, timestamp).well_formed(),
        ledger.mining_error(reward_address, timestamp) != Some(BlockChainError::InvalidToAddress),
{
    let after = ledger.after_mining(reward_address, timestamp);
    lemma_settlement_finds_receivers(ledger.wallets, ledger.pending_transactions);
    if ledger.pending_transactions.len() > 0 {
        let wallets = settled(ledger.wallets, ledger.pending_transactions);
        lemma_settled(ledger.wallets, ledger.pending_transactions);
        lemma_same_addresses_known(ledger.wallets, wallets, reward_address);
        if ledger.mining_error(reward_address, timestamp) is Some {
            assert forall|k: int| 0 <= k < after.pending_transactions.len() implies known(
                after.wallets,
                (#[trigger] after.pending_transactions[k]).to_wallet.address,
            ) by {
                lemma_same_addresses_known(
                    ledger.wallets,
                    wallets,
                    ledger.pending_transactions[k].to_wallet.address,
                );
            }
        } else {
            let candidate = ledger.candidate(timestamp);
            let block = candidate.mined(ledger.difficulty);
            lemma_mined(candidate, ledger.difficulty);
            let height = ledger.chain.len() as int;
            assert(after.chain[height] == block);
            assert forall|i: int| 0 <= i < after.chain.len() implies (#[trigger] after.chain[i]).index
                == i && after.chain[i].sealed() by {
                if i < height {
                    assert(after.chain[i] == ledger.chain[i]);
                }
            }
            assert forall|i: int| 1 <= i < after.chain.len() implies (#[trigger] after.chain[i]).sealed()
                && after.chain[i].previous_hash == after.chain[i - 1].hash by {
                if i < height {
                    assert(after.chain[i] == ledger.chain[i]);
                    assert(after.chain[i - 1] == ledger.chain[i - 1]);
                } else {
                    assert(after.chain[i - 1] == ledger.chain.last());
                }
            }
            assert forall|i: int| 1 <= i < after.chain.len() implies leading_zeros(
                (#[trigger] after.chain[i]).hash,
                after.difficulty,
            ) by {
                if i < height {
                    assert(after.chain[i] == ledger.chain[i]);
                }
            }
            lemma_known_positions(wallets, reward_address);
            assert(known(wallets, after.pending_transactions[0].to_wallet.address));
        }
    }
}

/// One of the operations that change a ledger.
pub enum Operation {
    /// A request to create a wallet.
    CreateWallet(WalletInfo),
    /// A request to add coins to a wallet.
    AddCoins(WalletCoins),
    /// A transfer request.
    Transfer(TransactionInfoView),
    /// Mining for the wallet at `reward_address` at the time `timestamp`.
    Mine { reward_address: Seq<char>, timestamp: nat },
}

/// The ledger after one operation, whether it was carried out or refused.
pub open spec fn after(ledger: BlockChainView, operation: Operation) -> BlockChainView {
    match operation {
        Operation::CreateWallet(request) => ledger.after_creation(request),
        Operation::AddCoins(request) => ledger.after_funding(request),
        Operation::Transfer(request) => ledger.after_transfer(request),
        Operation::Mine { reward_address, timestamp } => ledger.after_mining(reward_address, timestamp),
    }
}

/// The ledger after a sequence of operations, first one first.
pub open spec fn after_all(ledger: BlockChainView, operations: Seq<Operation>) -> BlockChainView
    decreases operations.len(),
{
    if operations.len() == 0 {
        ledger
    } else {
        after(after_all(ledger, operations.drop_last()), operations.last())
    }
}

/// Whatever operations are asked of a well-formed ledger, in whatever
/// order, it stays well formed.
pub proof fn lemma_operations_keep_well_formed(ledger: BlockChainView, operations: Seq<Operation>)
    requires
        ledger.well_formed(),
    ensures
        after_all(ledger, operations).well_formed(),
    decreases operations.len(),
{
    if operations.len() > 0 {
        lemma_operations_keep_well_formed(ledger, operations.drop_last());
        let before = after_all(ledger, operations.drop_last());
        match operations.last() {
            Operation::CreateWallet(request) => lemma_creation_keeps_well_formed(before, request),
            Operation::AddCoins(request) => lemma_funding_keeps_well_formed(before, request),
            Operation::Transfer(request) => lemma_transfer_keeps_well_formed(before, request),
            Operation::Mine { reward_address, timestamp } => lemma_mining_keeps_well_formed(
                before,
                reward_address,
                timestamp,
            ),
        }
    }
}

/// Of every ledger that started as a new one and went through any sequence
/// of operations: no balance is below zero, the chain passes its check, and
/// the first block is a genesis block, with index zero, no transfer and no
/// previous hash.
pub proof fn lemma_every_history(timestamp: nat, operations: Seq<Operation>)
    ensures
        ({
            let ledger = after_all(BlockChainView::initial(timestamp), operations);
            &&& forall|i: int| 0 <= i < ledger.wallets.len() ==> (#[trigger] ledger.wallets[i]).balance >= 0
            &&& chain_valid(ledger.chain)
            &&& ledger.chain.len() > 0
            &&& ledger.chain[0].index == 0
            &&& ledger.chain[0].transactions.len() == 0
            &&& ledger.chain[0].previous_hash.len() == 0
        }),
{
    lemma_initial_well_formed(timestamp);
    lemma_operations_keep_well_formed(BlockChainView::initial(timestamp), operations);
}

} // verus!
