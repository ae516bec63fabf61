use blockchain_api::api::requests::{get_wallet_balance, get_wallet_transactions, show_blockchain};
use blockchain_api::blockchain::block_chain::BlockChain;
use blockchain_api::blockchain::block_chain_errors::BlockChainError;
use blockchain_api::blockchain::transaction::TransactionInfo;
use blockchain_api::blockchain::wallet::WalletInfo;

fn text(s: &str) -> String {
    s.to_string()
}

fn two_wallets() -> BlockChain {
    let mut ledger = BlockChain::new_at(5);
    ledger
        .create_wallet(WalletInfo { address: text("alice"), balance: 100, password: text("pa") })
        .unwrap();
    ledger
        .create_wallet(WalletInfo { address: text("bob"), balance: 0, password: text("pb") })
        .unwrap();
    ledger
}

fn send(ledger: &mut BlockChain, amount: u32) {
    ledger
        .create_transaction(TransactionInfo {
            from_address: text("alice"),
            from_password: text("pa"),
            to_address: text("bob"),
            amount,
        })
        .unwrap();
}

#[test]
fn every_failure_has_its_sentence() {
    let sentences = [
        (BlockChainError::EmptyFromAddress, "'From' address is empty!"),
        (BlockChainError::EmptyToAddress, "'To' address is empty!"),
        (BlockChainError::InvalidAmount, "Amount can't be 0 or less!"),
        (BlockChainError::EmptyAddress, "Address is empty!"),
        (BlockChainError::MiningAddress, "Address cannot be 'MINING'!"),
        (BlockChainError::NegativeBalance, "Balance is less than 0!"),
        (BlockChainError::EmptyPassword, "Password is empty!"),
        (BlockChainError::NoPendingTransactions, "There are no pending transactions!"),
        (BlockChainError::InvalidRewardAddress, "Reward address doesn't exists!"),
        (BlockChainError::WrongPassword, "Wrong password!"),
        (BlockChainError::InvalidToAddress, "'To' address doesn't exists!"),
        (BlockChainError::InvalidFromAddress, "'From' address doesn't exists!"),
        (BlockChainError::NotEnoughCoins, "Not enough coins!"),
        (BlockChainError::NegativeAmount, "Amount is less than 0!"),
        (BlockChainError::WalletAlreadyExists, "A wallet with this address already exists!"),
        (BlockChainError::WalletNotFound, "Wallet not found!"),
        (BlockChainError::ChainIsEmpty, "Chain is empty!"),
        (BlockChainError::BalanceOverflow, "Balance would exceed the maximum!"),
        (BlockChainError::NonceExhausted, "No nonce meets the difficulty!"),
    ];
    for (failure, sentence) in sentences {
        assert_eq!(failure.message(), sentence);
    }
}

#[test]
fn every_failure_has_its_status() {
    let missing = [
        BlockChainError::EmptyFromAddress,
        BlockChainError::EmptyToAddress,
        BlockChainError::EmptyAddress,
        BlockChainError::WalletNotFound,
        BlockChainError::ChainIsEmpty,
    ];
    for failure in missing {
        assert_eq!(failure.status_code(), 404);
    }
    let failed = [
        BlockChainError::InvalidAmount,
        BlockChainError::MiningAddress,
        BlockChainError::NegativeBalance,
        BlockChainError::EmptyPassword,
        BlockChainError::NoPendingTransactions,
        BlockChainError::InvalidRewardAddress,
        BlockChainError::WrongPassword,
        BlockChainError::InvalidToAddress,
        BlockChainError::InvalidFromAddress,
        BlockChainError::NotEnoughCoins,
        BlockChainError::NegativeAmount,
        BlockChainError::WalletAlreadyExists,
        BlockChainError::BalanceOverflow,
        BlockChainError::NonceExhausted,
    ];
    for failure in failed {
        assert_eq!(failure.status_code(), 424);
    }
}

#[test]
fn starting_chain_is_shown_as_one_block_without_transfers() {
    let ledger = BlockChain::new_at(5);
    let answer = show_blockchain(&ledger);
    assert_eq!(answer.status, 200);
    assert_eq!(
        answer.body,
        "Index: 0\nTimestamp: 5\nTransactions: \n\nHash: \
         1dd68a2d273df991618f7d4a02d8fe2b79ac131ca6eb0791d5042b99e247918e\nPrevious hash: \n\n"
    );
}

#[test]
fn empty_chain_is_shown_as_nothing() {
    let mut ledger = BlockChain::new_at(5);
    ledger.chain.clear();
    let answer = show_blockchain(&ledger);
    assert_eq!(answer.status, 200);
    assert_eq!(answer.body, "");
}

#[test]
fn mined_chain_is_shown_block_after_block() {
    let mut ledger = two_wallets();
    send(&mut ledger, 25);
    ledger.mine_pending_transactions_at(&text("bob"), 9).unwrap();
    let genesis = "1dd68a2d273df991618f7d4a02d8fe2b79ac131ca6eb0791d5042b99e247918e";
    let mined = "000d4303bc138c545dc7091ae214cb4e4210b5bae2805c6c3eeb72ba0350408d";
    let expected = format!(
        "Index: 0\nTimestamp: 5\nTransactions: \n\nHash: {genesis}\nPrevious hash: \n\n\
         Index: 1\nTimestamp: 9\nTransactions: \n\n   From: alice\n   To: bob\n   Amount: 25\n\n\
         Hash: {mined}\nPrevious hash: {genesis}\n\n"
    );
    assert_eq!(show_blockchain(&ledger).body, expected);
}

#[test]
fn transfers_of_a_block_are_shown_each_after_an_empty_line() {
    let mut ledger = two_wallets();
    send(&mut ledger, 1);
    send(&mut ledger, 22);
    ledger.mine_pending_transactions_at(&text("bob"), 9).unwrap();
    let body = show_blockchain(&ledger).body;
    assert!(body.contains(
        "Transactions: \n\n   From: alice\n   To: bob\n   Amount: 1\n\n   From: alice\n   To: \
         bob\n   Amount: 22\n\nHash: "
    ));
}

#[test]
fn balance_is_shown_in_a_sentence() {
    let ledger = two_wallets();
    let answer = get_wallet_balance(&ledger, &text("alice"), &text("pa")).unwrap();
    assert_eq!(answer.status, 200);
    assert_eq!(answer.body, "Your balance is: 100");
    let answer = get_wallet_balance(&ledger, &text("bob"), &text("pb")).unwrap();
    assert_eq!(answer.body, "Your balance is: 0");
}

#[test]
fn balance_is_not_shown_without_wallet_or_password() {
    let ledger = two_wallets();
    assert!(matches!(
        get_wallet_balance(&ledger, &text("nobody"), &text("pa")),
        Err(BlockChainError::WalletNotFound)
    ));
    assert!(matches!(
        get_wallet_balance(&ledger, &text("alice"), &text("pb")),
        Err(BlockChainError::WrongPassword)
    ));
}

#[test]
fn empty_log_is_answered_as_not_found() {
    let ledger = two_wallets();
    let answer = get_wallet_transactions(&ledger, &text("alice"), &text("pa")).unwrap();
    assert_eq!(answer.status, 404);
    assert_eq!(answer.body, "No transactions found for this wallet!");
}

#[test]
fn log_is_shown_entry_after_entry() {
    let mut ledger = two_wallets();
    send(&mut ledger, 25);
    send(&mut ledger, 3);
    let answer = get_wallet_transactions(&ledger, &text("alice"), &text("pa")).unwrap();
    assert_eq!(answer.status, 200);
    assert_eq!(
        answer.body,
        "From: alice\nTo: bob\nAmount: 25\n\nFrom: alice\nTo: bob\nAmount: 3\n\n"
    );
    ledger.mine_pending_transactions_at(&text("bob"), 9).unwrap();
    let answer = get_wallet_transactions(&ledger, &text("bob"), &text("pb")).unwrap();
    assert_eq!(
        answer.body,
        "From: alice\nTo: bob\nAmount: 25\n\nFrom: alice\nTo: bob\nAmount: 3\n\n"
    );
}

#[test]
fn log_is_not_shown_without_wallet_or_password() {
    let ledger = two_wallets();
    assert!(matches!(
        get_wallet_transactions(&ledger, &text("nobody"), &text("pa")),
        Err(BlockChainError::WalletNotFound)
    ));
    assert!(matches!(
        get_wallet_transactions(&ledger, &text("alice"), &text("")),
        Err(BlockChainError::WrongPassword)
    ));
}
