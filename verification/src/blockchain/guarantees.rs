//! What callers can rely on across operations of the ledger.

use vstd::prelude::*;
use super::block::BlockView;
use super::block_chain::{chain_valid, BlockChainView};
use super::block_chain_errors::BlockChainError;
use super::transaction::TransactionInfoView;
use super::wallet::{found, held_at, known, WalletInfo};

verus! {

/// A well-formed ledger passes the check of its chain.
pub proof fn lemma_well_formed_chain_is_valid(ledger: BlockChainView)
    requires
        ledger.well_formed(),
    ensures
        chain_valid(ledger.chain),
{
}

/// A changed hash is detected: in a valid chain, once the hash stored in a
/// block is replaced by another, the chain is valid no more. The one block
/// left out is a genesis block that stands alone, which nothing checks.
pub proof fn lemma_changed_hash_is_detected(chain: Seq<BlockView>, i: int, hash: Seq<char>)
    requires
        chain_valid(chain),
        0 <= i < chain.len(),
        hash != chain[i].hash,
        i > 0 || chain.len() > 1,
    ensures
        !chain_valid(chain.update(i, chain[i].with_hash(hash))),
{
    let changed = chain.update(i, chain[i].with_hash(hash));
    if i > 0 {
        assert(chain[i].sealed());
        assert(!changed[i].sealed());
    } else {
        assert(chain[1].previous_hash == chain[0].hash);
        assert(changed[1].previous_hash != changed[0].hash);
    }
}

/// A changed link is detected: in a valid chain, once the previous hash
/// stored in a block after the first is replaced by another, the chain is
/// valid no more.
pub proof fn lemma_changed_link_is_detected(chain: Seq<BlockView>, i: int, previous_hash: Seq<char>)
    requires
        chain_valid(chain),
        1 <= i < chain.len(),
        previous_hash != chain[i].previous_hash,
    ensures
        !chain_valid(chain.update(i, chain[i].linked(previous_hash))),
{
    let changed = chain.update(i, chain[i].linked(previous_hash));
    assert(chain[i].previous_hash == chain[i - 1].hash);
    assert(changed[i].previous_hash != changed[i - 1].hash);
}

/// Creating a wallet twice fails the second time: once a wallet was created
/// at an address, a further request for that address that is acceptable by
/// itself is refused with `WalletAlreadyExists` and changes nothing.
pub proof fn lemma_second_creation_is_refused(ledger: BlockChainView, first: WalletInfo, second: WalletInfo)
    requires
        ledger.creation_error(first) is None,
        second.address@ == first.address@,
        second.rejection() is None,
    ensures
        ledger.after_creation(first).creation_error(second) == Some(
            BlockChainError::WalletAlreadyExists,
        ),
        ledger.after_creation(first).after_creation(second) == ledger.after_creation(first),
{
    let after = ledger.after_creation(first);
    assert(held_at(after.wallets, first.address@, ledger.wallets.len() as int));
}

/// A transfer of nothing is refused: a request that names a sender and a
/// receiver and has the amount zero fails with `InvalidAmount`, whatever
/// wallets exist, and changes nothing.
pub proof fn lemma_zero_amount_is_refused(ledger: BlockChainView, request: TransactionInfoView)
    requires
        request.from_address.len() > 0,
        request.to_address.len() > 0,
        request.amount == 0,
    ensures
        ledger.transfer_error(request) == Some(BlockChainError::InvalidAmount),
        ledger.after_transfer(request) == ledger,
{
}

/// A wrong password is refused: for every address that has a wallet, access
/// with a password other than the wallet's fails with `WrongPassword`.
pub proof fn lemma_wrong_password_is_refused(ledger: BlockChainView, address: Seq<char>, password: Seq<char>)
    requires
        known(ledger.wallets, address),
        password != found(ledger.wallets, address).password,
    ensures
        ledger.access_error(address, password) == Some(BlockChainError::WrongPassword),
{
}

/// With nothing pending there is nothing to mine: mining fails with
/// `NoPendingTransactions`, whoever asks and whenever, and changes nothing.
pub proof fn lemma_empty_pool_is_not_mined(ledger: BlockChainView, reward_address: Seq<char>, timestamp: nat)
    requires
        ledger.pending_transactions.len() == 0,
    ensures
        ledger.mining_error(reward_address, timestamp) == Some(
            BlockChainError::NoPendingTransactions,
        ),
        ledger.after_mining(reward_address, timestamp) == ledger,
{
}

} // verus!
