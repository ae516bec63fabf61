//! The answers to the read requests: the chain, a balance, a wallet's log.

use vstd::prelude::*;
use crate::blockchain::block::{Block, BlockView};
use crate::blockchain::block_chain::BlockChain;
use crate::blockchain::block_chain_errors::BlockChainError;
use crate::blockchain::hasher::{decimal_text, push_decimal};
use crate::blockchain::transaction::{Transaction, TransactionInfo, TransactionInfoView, TransactionView};
use crate::blockchain::wallet::found;

verus! {

/// An answer to a request: an HTTP status and the text to show.
#[derive(Debug)]
pub struct Answer {
    pub status: u16,
    pub body: String,
}

/// The lines that show one transfer of a block.
pub open spec fn transfer_lines(transfer: TransactionView) -> Seq<char> {
    "   From: "@ + transfer.from_wallet.address + "\n   To: "@ + transfer.to_wallet.address
        + "\n   Amount: "@ + decimal_text(transfer.amount) + "\n"@
}

/// The lines that show the transfers of a block, each after an empty line.
pub open spec fn transfers_lines(transfers: Seq<TransactionView>) -> Seq<char>
    decreases transfers.len(),
{
    if transfers.len() == 0 {
        Seq::empty()
    } else {
        transfers_lines(transfers.drop_last()) + "\n"@ + transfer_lines(transfers.last())
    }
}

/// The lines that show one block.
pub open spec fn block_lines(block: BlockView) -> Seq<char> {
    "Index: "@ + decimal_text(block.index) + "\nTimestamp: "@ + decimal_text(block.timestamp)
        + "\nTransactions: \n"@ + transfers_lines(block.transactions) + "\nHash: "@ + block.hash
        + "\nPrevious hash: "@ + block.previous_hash + "\n\n"@
}

/// The lines that show a chain, block after block.
pub open spec fn chain_lines(chain: Seq<BlockView>) -> Seq<char>
    decreases chain.len(),
{
    if chain.len() == 0 {
        Seq::empty()
    } else {
        chain_lines(chain.drop_last()) + block_lines(chain.last())
    }
}

/// The lines that show one entry of a wallet's log.
pub open spec fn entry_lines(entry: TransactionInfoView) -> Seq<char> {
    "From: "@ + entry.from_address + "\nTo: "@ + entry.to_address + "\nAmount: "@ + decimal_text(
        entry.amount,
    ) + "\n\n"@
}

/// The lines that show a wallet's log, entry after entry.
pub open spec fn log_lines(log: Seq<TransactionInfoView>) -> Seq<char>
    decreases log.len(),
{
    if log.len() == 0 {
        Seq::empty()
    } else {
        log_lines(log.drop_last()) + entry_lines(log.last())
    }
}

/// The line that shows a balance.
pub open spec fn balance_line(balance: nat) -> Seq<char> {
    "Your balance is: "@ + decimal_text(balance)
}

/// Writes the lines that show one transfer of a block.
fn write_transfer(transfer: &Transaction) -> (text: String)
    ensures
        text@ == transfer_lines(transfer@),
{
    let mut text = String::from_str("   From: ");
    text.append(transfer.from_wallet.address.as_str());
    text.append("\n   To: ");
    text.append(transfer.to_wallet.address.as_str());
    text.append("\n   Amount: ");
    push_decimal(&mut text, transfer.amount as u64);
    text.append("\n");
    text
}

/// Writes the lines that show one block.
fn write_block(block: &Block) -> (text: String)
    ensures
        text@ == block_lines(block@),
{
    let mut transfers = String::new();
    let count: usize = block.transactions.len();
    let mut i: usize = 0;
    while i < count
        invariant
            i <= count,
            count == block.transactions.len(),
            transfers@ == transfers_lines(block@.transactions.take(i as int)),
        decreases count - i,
    {
        let lines = write_transfer(&block.transactions[i]);
        transfers.append("\n");
        transfers.append(lines.as_str());
        proof {
            let shown = block@.transactions.take(i + 1);
            assert(shown.drop_last() =~= block@.transactions.take(i as int));
            assert(shown.last() == block.transactions[i as int]@);
        }
        i += 1;
    }
    assert(block@.transactions.take(count as int) =~= block@.transactions);

    let mut text = String::from_str("Index: ");
    push_decimal(&mut text, block.index as u64);
    text.append("\nTimestamp: ");
    push_decimal(&mut text, block.timestamp);
    text.append("\nTransactions: \n");
    text.append(transfers.as_str());
    text.append("\nHash: ");
    text.append(block.hash.as_str());
    text.append("\nPrevious hash: ");
    text.append(block.previous_hash.as_str());
    text.append("\n\n");
    text
}

/// Writes the lines that show one entry of a wallet's log.
fn write_entry(entry: &TransactionInfo) -> (text: String)
    ensures
        text@ == entry_lines(entry@),
{
    let mut text = String::from_str("From: ");
    text.append(entry.from_address.as_str());
    text.append("\nTo: ");
    text.append(entry.to_address.as_str());
    text.append("\nAmount: ");
    push_decimal(&mut text, entry.amount as u64);
    text.append("\n\n");
    text
}

/// Shows the chain: every block with its index, timestamp, transfers, hash
/// and previous hash.
pub fn show_blockchain(ledger: &BlockChain) -> (answer: Answer)
    ensures
        answer.status == 200,
        answer.body@ == chain_lines(ledger@.chain),
{
    let mut body = String::new();
    let count: usize = ledger.chain.len();
    let mut i: usize = 0;
    while i < count
        invariant
            i <= count,
            count == ledger.chain.len(),
            body@ == chain_lines(ledger@.chain.take(i as int)),
        decreases count - i,
    {
        let lines = write_block(&ledger.chain[i]);
        body.append(lines.as_str());
        proof {
            let shown = ledger@.chain.take(i + 1);
            assert(shown.drop_last() =~= ledger@.chain.take(i as int));
            assert(shown.last() == ledger.chain[i as int]@);
        }
        i += 1;
    }
    assert(ledger@.chain.take(count as int) =~= ledger@.chain);
    Answer { status: 200, body }
}

/// Shows the balance of the wallet at `address`, for who knows its password.
pub fn get_wallet_balance(ledger: &BlockChain, address: &String, password: &String) -> (res: Result<
    Answer,
    BlockChainError,
>)
    ensures
        res is Ok <==> ledger@.access_error(address@, password@) is None,
        res matches Ok(answer) ==> answer.status == 200 && answer.body@ == balance_line(
            found(ledger@.wallets, address@).balance as nat,
        ),
        res matches Err(e) ==> ledger@.access_error(address@, password@) == Some(e),
{
    let balance: u32 = ledger.get_balance_of_wallet(address, password)?;
    let mut body = String::from_str("Your balance is: ");
    push_decimal(&mut body, balance as u64);
    Ok(Answer { status: 200, body })
}

/// Shows the log of the wallet at `address`, for who knows its password. A
/// wallet that has made and received no transfer is answered with status 404.
pub fn get_wallet_transactions(ledger: &BlockChain, address: &String, password: &String) -> (res:
    Result<Answer, BlockChainError>)
    ensures
        res is Ok <==> ledger@.access_error(address@, password@) is None,
        res matches Ok(answer) ==> {
            let log = found(ledger@.wallets, address@).transactions;
            if log.len() == 0 {
                answer.status == 404 && answer.body@ == "No transactions found for this wallet!"@
            } else {
                answer.status == 200 && answer.body@ == log_lines(log)
            }
        },
        res matches Err(e) ==> ledger@.access_error(address@, password@) == Some(e),
{
    let log = ledger.get_transactions_of_wallet(address, password)?;
    let count: usize = log.len();
    if count == 0 {
        return Ok(
            Answer { status: 404, body: String::from_str("No transactions found for this wallet!") },
        );
    }
    let mut body = String::new();
    let mut i: usize = 0;
    while i < count
        invariant
            i <= count,
            count == log.len(),
            body@ == log_lines(log.deep_view().take(i as int)),
        decreases count - i,
    {
        let lines = write_entry(&log[i]);
        body.append(lines.as_str());
        proof {
            let shown = log.deep_view().take(i + 1);
            assert(shown.drop_last() =~= log.deep_view().take(i as int));
            assert(shown.last() == log[i as int]@);
        }
        i += 1;
    }
    assert(log.deep_view().take(count as int) =~= log.deep_view());
    Ok(Answer { status: 200, body })
}

} // verus!
