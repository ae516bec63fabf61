//! Blocks: what they hold, how their hash is computed, and how they are mined.

use vstd::prelude::*;
use vstd::utf8::{encode_utf8, encode_utf8_decode_utf8};
use super::hasher::{
    decimal_text, has_leading_zeros, leading_zeros, lemma_common_prefix, lemma_common_suffix,
    lemma_decimal_text_injective, lemma_decimal_text_length, push_decimal, sha256_hex,
    sha256_hex_digest,
};
use super::transaction::{Transaction, TransactionView};

verus! {

/// A batch of transfers, linked to the block before it by that block's hash.
#[derive(Debug)]
pub struct Block {
    pub index: usize,
    pub timestamp: u64,
    pub transactions: Vec<Transaction>,
    pub hash: String,
    pub previous_hash: String,
    pub nonce: usize,
}

/// What a [`Block`] holds, as mathematical values.
pub struct BlockView {
    pub index: nat,
    pub timestamp: nat,
    pub transactions: Seq<TransactionView>,
    pub hash: Seq<char>,
    pub previous_hash: Seq<char>,
    pub nonce: nat,
}

/// What a reader of the chain is shown of one transfer.
#[derive(Debug)]
pub struct BlockTransaction {
    pub from: String,
    pub to: String,
    pub amount: u32,
}

/// The text that one transfer contributes to a block's hash: the sender's
/// address twice, the receiver's address twice, then the amount in decimal.
pub open spec fn transfer_text(transfer: TransactionView) -> Seq<char> {
    transfer.from_wallet.address + transfer.from_wallet.address + transfer.to_wallet.address
        + transfer.to_wallet.address + decimal_text(transfer.amount)
}

/// The texts of the transfers, in order, one after the other.
pub open spec fn transfers_text(transfers: Seq<TransactionView>) -> Seq<char>
    decreases transfers.len(),
{
    if transfers.len() == 0 {
        Seq::empty()
    } else {
        transfers_text(transfers.drop_last()) + transfer_text(transfers.last())
    }
}

impl BlockView {
    /// Whether the block has the shape of a genesis block: index zero, no
    /// transfer, no predecessor.
    pub open spec fn is_genesis(self) -> bool {
        self.index == 0 && self.transactions.len() == 0 && self.previous_hash.len() == 0
    }

    /// The text that is hashed: index, timestamp, the transfers, the previous
    /// hash and the nonce, with nothing between them. The stored hash is no
    /// part of it.
    pub open spec fn hash_text(self) -> Seq<char> {
        decimal_text(self.index) + decimal_text(self.timestamp) + transfers_text(self.transactions)
            + self.previous_hash + decimal_text(self.nonce)
    }

    /// The hash that the block's other fields call for.
    pub open spec fn expected_hash(self) -> Seq<char> {
        sha256_hex(encode_utf8(self.hash_text()))
    }

    /// Whether the stored hash is the one that the other fields call for.
    pub open spec fn sealed(self) -> bool {
        self.hash == self.expected_hash()
    }

    /// The block with its hash computed anew.
    pub open spec fn rehashed(self) -> BlockView {
        self.with_hash(self.expected_hash())
    }

    /// The block linked to a predecessor whose hash is `previous_hash`; the
    /// stored hash stays as it was.
    pub open spec fn linked(self, previous_hash: Seq<char>) -> BlockView {
        BlockView { previous_hash, ..self }
    }

    /// The block with the hash `hash` stored in it.
    pub open spec fn with_hash(self, hash: Seq<char>) -> BlockView {
        BlockView { hash, ..self }
    }

    /// The block with the nonce `nonce`; the stored hash stays as it was.
    pub open spec fn with_nonce(self, nonce: nat) -> BlockView {
        BlockView { nonce, ..self }
    }

    /// The block holding `transactions`; the stored hash stays as it was.
    pub open spec fn holding(self, transactions: Seq<TransactionView>) -> BlockView {
        BlockView { transactions, ..self }
    }

    /// The block with the nonce `nonce` and the hash that goes with it.
    pub open spec fn at_nonce(self, nonce: nat) -> BlockView {
        self.with_nonce(nonce).rehashed()
    }

    /// A new block: no predecessor, nonce zero, hashed once.
    pub open spec fn fresh(index: nat, timestamp: nat, transactions: Seq<TransactionView>) -> BlockView {
        BlockView {
            index,
            timestamp,
            transactions,
            hash: Seq::empty(),
            previous_hash: Seq::empty(),
            nonce: 0,
        }.rehashed()
    }

    /// The block after mining at `difficulty`: unchanged if its hash already
    /// starts with `difficulty` zeros or no nonce is left; else mined from the
    /// next nonce on.
    pub open spec fn mined(self, difficulty: nat) -> BlockView
        decreases usize::MAX - self.nonce,
    {
        if leading_zeros(self.hash, difficulty) || self.nonce >= usize::MAX {
            self
        } else {
            self.at_nonce(self.nonce + 1).mined(difficulty)
        }
    }
}

/// The hash that a block's fields call for does not depend on the hash
/// stored in it: computed again, it comes out the same.
pub proof fn lemma_hash_is_stable(block: BlockView, stored: Seq<char>)
    ensures
        block.with_hash(stored).expected_hash() == block.expected_hash(),
        block.rehashed().rehashed() == block.rehashed(),
        block.rehashed().sealed(),
{
}

/// Different texts are hashed as different bytes.
pub proof fn lemma_bytes_tell_texts_apart(s: Seq<char>, t: Seq<char>)
    requires
        s != t,
    ensures
        encode_utf8(s) != encode_utf8(t),
{
    encode_utf8_decode_utf8(s);
    encode_utf8_decode_utf8(t);
}

/// With another nonce, other bytes are hashed.
pub proof fn lemma_nonce_changes_what_is_hashed(block: BlockView, nonce: nat)
    requires
        nonce != block.nonce,
    ensures
        encode_utf8(block.with_nonce(nonce).hash_text()) != encode_utf8(block.hash_text()),
{
    let other = block.with_nonce(nonce);
    let head = decimal_text(block.index) + decimal_text(block.timestamp) + transfers_text(
        block.transactions,
    ) + block.previous_hash;
    if other.hash_text() == block.hash_text() {
        lemma_common_prefix(head, decimal_text(nonce), decimal_text(block.nonce));
        lemma_decimal_text_injective(nonce, block.nonce);
    }
    lemma_bytes_tell_texts_apart(other.hash_text(), block.hash_text());
}

/// With another previous hash, other bytes are hashed.
pub proof fn lemma_previous_hash_changes_what_is_hashed(block: BlockView, previous_hash: Seq<char>)
    requires
        previous_hash != block.previous_hash,
    ensures
        encode_utf8(block.linked(previous_hash).hash_text()) != encode_utf8(block.hash_text()),
{
    let other = block.linked(previous_hash);
    let head = decimal_text(block.index) + decimal_text(block.timestamp) + transfers_text(
        block.transactions,
    );
    if other.hash_text() == block.hash_text() {
        lemma_common_suffix(head + previous_hash, head + block.previous_hash, decimal_text(block.nonce));
        lemma_common_prefix(head, previous_hash, block.previous_hash);
    }
    lemma_bytes_tell_texts_apart(other.hash_text(), block.hash_text());
}

/// With one more transfer at the end, other bytes are hashed.
pub proof fn lemma_further_transfer_changes_what_is_hashed(block: BlockView, transfer: TransactionView)
    ensures
        encode_utf8(block.holding(block.transactions.push(transfer)).hash_text()) != encode_utf8(
            block.hash_text(),
        ),
{
    let other = block.holding(block.transactions.push(transfer));
    assert(other.transactions.drop_last() =~= block.transactions);
    assert(other.transactions.last() == transfer);
    lemma_decimal_text_length(transfer.amount);
    assert(transfers_text(other.transactions).len() > transfers_text(block.transactions).len());
    assert(other.hash_text().len() > block.hash_text().len());
    lemma_bytes_tell_texts_apart(other.hash_text(), block.hash_text());
}

/// Mining changes a block's nonce and hash and nothing else, and a block
/// that carried the hash its fields call for still does.
pub proof fn lemma_mined(block: BlockView, difficulty: nat)
    ensures
        block.mined(difficulty).index == block.index,
        block.mined(difficulty).timestamp == block.timestamp,
        block.mined(difficulty).transactions == block.transactions,
        block.mined(difficulty).previous_hash == block.previous_hash,
        block.mined(difficulty).nonce >= block.nonce,
        block.sealed() ==> block.mined(difficulty).sealed(),
        leading_zeros(block.mined(difficulty).hash, difficulty) || block.mined(difficulty).nonce
            >= usize::MAX,
    decreases usize::MAX - block.nonce,
{
    if leading_zeros(block.hash, difficulty) || block.nonce >= usize::MAX {
    } else {
        lemma_mined(block.at_nonce(block.nonce + 1), difficulty);
    }
}

/// Mining takes the first nonce that serves: every nonce that it passed
/// over gives a hash that does not meet the difficulty.
pub proof fn lemma_mined_passes_over_failures(block: BlockView, difficulty: nat, nonce: nat)
    requires
        block.nonce < nonce < block.mined(difficulty).nonce,
    ensures
        !leading_zeros(block.at_nonce(nonce).hash, difficulty),
    decreases usize::MAX - block.nonce,
{
    if leading_zeros(block.hash, difficulty) || block.nonce >= usize::MAX {
    } else {
        let next = block.at_nonce(block.nonce + 1);
        if nonce == block.nonce + 1 {
            if leading_zeros(next.hash, difficulty) {
                assert(next.mined(difficulty) == next);
            }
        } else {
            lemma_mined_passes_over_failures(next, difficulty, nonce);
            assert(next.at_nonce(nonce) == block.at_nonce(nonce));
        }
    }
}

impl View for Block {
    type V = BlockView;

    open spec fn view(&self) -> BlockView {
        BlockView {
            index: self.index as nat,
            timestamp: self.timestamp as nat,
            transactions: self.transactions.deep_view(),
            hash: self.hash@,
            previous_hash: self.previous_hash@,
            nonce: self.nonce as nat,
        }
    }
}

impl DeepView for Block {
    type V = BlockView;

    open spec fn deep_view(&self) -> BlockView {
        self@
    }
}

impl Clone for Block {
    fn clone(&self) -> (copy: Self)
        ensures
            copy@ == self@,
    {
        let transactions = self.transactions.clone();
        assert(transactions.deep_view() =~= self.transactions.deep_view());
        Block {
            index: self.index,
            timestamp: self.timestamp,
            transactions,
            hash: self.hash.clone(),
            previous_hash: self.previous_hash.clone(),
            nonce: self.nonce,
        }
    }
}

/// Reads the system clock through `std::time::SystemTime::elapsed`, called on
/// `UNIX_EPOCH`, and gives the whole seconds since then.
///
/// Trusted, and nothing is claimed of the result: it is `None` where the
/// clock stands before the epoch, and otherwise whatever the clock says.
#[verifier::external_body]
fn seconds_since_epoch() -> (seconds: Option<u64>) {
    match std::time::UNIX_EPOCH.elapsed() {
        Ok(elapsed) => Some(elapsed.as_secs()),
        Err(_) => None,
    }
}

/// The time that the system clock gives, in seconds since the epoch; zero
/// if the clock stands before the epoch.
pub(crate) fn current_timestamp() -> u64 {
    timestamp_of(seconds_since_epoch())
}

/// The timestamp that goes with a reading of the clock: the seconds read,
/// or zero where the clock stood before the epoch and nothing was read.
pub fn timestamp_of(reading: Option<u64>) -> (timestamp: u64)
    ensures
        reading matches Some(seconds) ==> timestamp == seconds,
        reading is None ==> timestamp == 0,
{
    match reading {
        Some(seconds) => seconds,
        None => 0,
    }
}

impl Block {
    /// A block created now: at the time that the system clock gives, in
    /// seconds since the epoch, or at time zero if the clock stands before
    /// the epoch.
    pub fn new(index: usize, transactions: &Vec<Transaction>) -> (block: Self)
        ensures
            block@ == BlockView::fresh(index as nat, block@.timestamp, transactions.deep_view()),
    {
        Block::new_at(index, current_timestamp(), transactions)
    }

    /// A block created at the time `timestamp`, in seconds since the epoch.
    pub fn new_at(index: usize, timestamp: u64, transactions: &Vec<Transaction>) -> (block: Self)
        ensures
            block@ == BlockView::fresh(index as nat, timestamp as nat, transactions.deep_view()),
    {
        let copies = transactions.clone();
        assert(copies.deep_view() =~= transactions.deep_view());
        let mut block = Block {
            index,
            timestamp,
            transactions: copies,
            hash: String::new(),
            previous_hash: String::new(),
            nonce: 0,
        };
        block.set_hash();
        block
    }

    /// Links the block to its predecessor. The stored hash is left as it is.
    pub fn set_previous_hash(&mut self, previous_hash: &str)
        ensures
            final(self)@ == old(self)@.linked(previous_hash@),
    {
        self.previous_hash = String::from_str(previous_hash);
    }

    /// Computes the hash anew and stores it.
    pub fn set_hash(&mut self)
        ensures
            final(self)@ == old(self)@.rehashed(),
    {
        self.hash = self.calculate_hash();
    }

    /// Writes out the text that is hashed.
    pub fn hash_input(&self) -> (text: String)
        ensures
            text@ == self@.hash_text(),
    {
        let mut text = String::new();
        push_decimal(&mut text, self.index as u64);
        push_decimal(&mut text, self.timestamp);
        let ghost head = text@;
        let count: usize = self.transactions.len();
        let mut i: usize = 0;
        while i < count
            invariant
                i <= count,
                count == self.transactions.len(),
                text@ == head + transfers_text(self@.transactions.take(i as int)),
            decreases count - i,
        {
            let transfer = &self.transactions[i];
            text.append(transfer.from_wallet.address.as_str());
            text.append(transfer.from_wallet.address.as_str());
            text.append(transfer.to_wallet.address.as_str());
            text.append(transfer.to_wallet.address.as_str());
            push_decimal(&mut text, transfer.amount as u64);
            proof {
                let done = self@.transactions.take(i + 1);
                assert(done.drop_last() =~= self@.transactions.take(i as int));
                assert(done.last() == transfer@);
            }
            i += 1;
        }
        assert(self@.transactions.take(count as int) =~= self@.transactions);
        text.append(self.previous_hash.as_str());
        push_decimal(&mut text, self.nonce as u64);
        text
    }

    /// The SHA-256 digest, in hexadecimal, of the block's index, timestamp,
    /// transfers, previous hash and nonce.
    pub fn calculate_hash(&self) -> (hash: String)
        ensures
            hash@ == self@.expected_hash(),
    {
        let text = self.hash_input();
        sha256_hex_digest(text.as_str().as_bytes())
    }

    /// Whether the stored hash is the one that the other fields call for.
    pub fn is_sealed(&self) -> (sealed: bool)
        ensures
            sealed == self@.sealed(),
    {
        self.hash == self.calculate_hash()
    }

    /// Whether the stored hash starts with `difficulty` zeros.
    pub fn meets(&self, difficulty: usize) -> (met: bool)
        ensures
            met == leading_zeros(self@.hash, difficulty as nat),
    {
        has_leading_zeros(self.hash.as_str(), difficulty)
    }

    /// Searches for a nonce: as long as the stored hash does not start with
    /// `difficulty` zeros, takes the next nonce and hashes again. The search
    /// gives up at the last nonce that a `usize` holds.
    pub fn mine_block(&mut self, difficulty: usize)
        ensures
            final(self)@ == old(self)@.mined(difficulty as nat),
            leading_zeros(final(self)@.hash, difficulty as nat) || final(self)@.nonce == usize::MAX,
    {
        while !self.meets(difficulty) && self.nonce < usize::MAX
            invariant
                self@.mined(difficulty as nat) == old(self)@.mined(difficulty as nat),
            decreases usize::MAX - self.nonce,
        {
            self.nonce += 1;
            self.set_hash();
        }
    }
}

} // verus!
