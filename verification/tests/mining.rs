use blockchain_api::blockchain::block_chain::BlockChain;
use blockchain_api::blockchain::block_chain_errors::BlockChainError;
use blockchain_api::blockchain::transaction::{Transaction, TransactionInfo};
use blockchain_api::blockchain::wallet::{Wallet, WalletCoins, WalletInfo};

fn text(s: &str) -> String {
    s.to_string()
}

fn request(from: &str, password: &str, to: &str, amount: u32) -> TransactionInfo {
    TransactionInfo {
        from_address: text(from),
        from_password: text(password),
        to_address: text(to),
        amount,
    }
}

fn two_wallets() -> BlockChain {
    let mut ledger = BlockChain::new_at(5);
    ledger
        .create_wallet(WalletInfo { address: text("alice"), balance: 100, password: text("pa") })
        .unwrap();
    ledger
        .create_wallet(WalletInfo { address: text("bob"), balance: 0, password: text("pb") })
        .unwrap();
    ledger
}

fn balance(ledger: &BlockChain, address: &str, password: &str) -> u32 {
    ledger.get_balance_of_wallet(&text(address), &text(password)).unwrap()
}

#[test]
fn ledger_starts_with_a_genesis_block_and_nothing_else() {
    let ledger = BlockChain::new_at(5);
    assert_eq!(ledger.chain.len(), 1);
    assert_eq!(ledger.difficulty, 2);
    assert_eq!(ledger.mining_reward, 100);
    assert_eq!(ledger.name, "Blockchain");
    assert!(ledger.pending_transactions.is_empty());
    assert!(ledger.wallets.is_empty());
    let genesis = &ledger.chain[0];
    assert_eq!(genesis.index, 0);
    assert_eq!(genesis.timestamp, 5);
    assert!(genesis.transactions.is_empty());
    assert_eq!(genesis.previous_hash, "");
    assert_eq!(genesis.nonce, 0);
    assert_eq!(genesis.hash, "1dd68a2d273df991618f7d4a02d8fe2b79ac131ca6eb0791d5042b99e247918e");
    assert!(ledger.is_valid());
}

#[test]
fn default_ledger_is_the_starting_ledger_with_the_clock_time() {
    let ledger = BlockChain::default();
    assert_eq!(ledger.chain.len(), 1);
    assert_eq!(ledger.difficulty, 2);
    assert_eq!(ledger.mining_reward, 100);
    assert_eq!(ledger.name, "Blockchain");
    assert!(ledger.pending_transactions.is_empty());
    assert!(ledger.wallets.is_empty());
    assert_eq!(ledger.chain[0].index, 0);
    assert!(ledger.chain[0].transactions.is_empty());
    assert_eq!(ledger.chain[0].previous_hash, "");
    assert!(ledger.chain[0].timestamp > 1_000_000_000);
    assert!(ledger.chain[0].is_sealed());
}

#[test]
fn genesis_block_stays_as_it_is() {
    let mut ledger = two_wallets();
    let hash = ledger.chain[0].hash.clone();
    ledger.create_transaction(request("alice", "pa", "bob", 50)).unwrap();
    ledger.mine_pending_transactions_at(&text("bob"), 9).unwrap();
    ledger.mine_pending_transactions_at(&text("alice"), 10).unwrap();
    assert_eq!(ledger.chain.len(), 3);
    assert_eq!(ledger.chain[0].index, 0);
    assert!(ledger.chain[0].transactions.is_empty());
    assert_eq!(ledger.chain[0].previous_hash, "");
    assert_eq!(ledger.chain[0].hash, hash);
    assert_eq!(ledger.chain[0].timestamp, 5);
}

#[test]
fn mining_an_empty_pool_fails_and_leaves_the_ledger_unchanged() {
    let mut ledger = two_wallets();
    let hash = ledger.chain[0].hash.clone();
    assert_eq!(
        ledger.mine_pending_transactions(&text("alice")),
        Err(BlockChainError::NoPendingTransactions)
    );
    assert_eq!(
        ledger.mine_pending_transactions_at(&text("alice"), 7),
        Err(BlockChainError::NoPendingTransactions)
    );
    assert_eq!(
        ledger.mine_pending_transactions(&text("nobody")),
        Err(BlockChainError::NoPendingTransactions)
    );
    assert_eq!(ledger.chain.len(), 1);
    assert_eq!(ledger.chain[0].hash, hash);
    assert_eq!(ledger.pending_transactions.len(), 0);
    assert_eq!(balance(&ledger, "alice", "pa"), 100);
    assert_eq!(balance(&ledger, "bob", "pb"), 0);
}

#[test]
fn transfer_then_mining_credits_the_receiver_and_queues_the_reward() {
    let mut ledger = BlockChain::new_at(5);
    ledger
        .create_wallet(WalletInfo { address: text("A"), balance: 100, password: text("p") })
        .unwrap();
    ledger
        .create_wallet(WalletInfo { address: text("B"), balance: 0, password: text("p") })
        .unwrap();

    assert!(ledger.create_transaction(request("A", "p", "B", 50)).is_ok());
    assert_eq!(balance(&ledger, "A", "p"), 50);
    assert_eq!(balance(&ledger, "B", "p"), 0);
    assert_eq!(ledger.pending_transactions.len(), 1);

    assert_eq!(
        ledger.mine_pending_transactions(&text("B")),
        Ok(text("Transactions successfully mined"))
    );
    // The transfer is credited; the reward waits in the pool for the next block.
    assert_eq!(balance(&ledger, "B", "p"), 50);
    assert_eq!(balance(&ledger, "A", "p"), 50);
    assert_eq!(ledger.chain.len(), 2);
    assert_eq!(ledger.pending_transactions.len(), 1);
    let reward = &ledger.pending_transactions[0];
    assert_eq!(reward.from_wallet.address, "MINING");
    assert_eq!(reward.from_wallet.balance, 0);
    assert_eq!(reward.from_wallet.password, "");
    assert_eq!(reward.to_wallet.address, "B");
    assert_eq!(reward.to_wallet.balance, 50);
    assert_eq!(reward.amount, 100);

    assert!(ledger.mine_pending_transactions(&text("A")).is_ok());
    assert_eq!(balance(&ledger, "B", "p"), 150);
    assert_eq!(balance(&ledger, "A", "p"), 50);
    assert_eq!(ledger.chain.len(), 3);
    assert_eq!(ledger.pending_transactions.len(), 1);
    assert_eq!(ledger.pending_transactions[0].to_wallet.address, "A");
}

#[test]
fn mined_block_holds_the_pool_and_is_linked_to_the_last_block() {
    let mut ledger = two_wallets();
    ledger.create_transaction(request("alice", "pa", "bob", 25)).unwrap();
    ledger.mine_pending_transactions_at(&text("bob"), 9).unwrap();

    let block = &ledger.chain[1];
    assert_eq!(block.index, 1);
    assert_eq!(block.timestamp, 9);
    assert_eq!(block.transactions.len(), 1);
    assert_eq!(block.transactions[0].from_wallet.address, "alice");
    assert_eq!(block.transactions[0].to_wallet.address, "bob");
    assert_eq!(block.transactions[0].amount, 25);
    assert_eq!(block.previous_hash, ledger.chain[0].hash);
    assert_eq!(block.nonce, 295);
    assert_eq!(block.hash, "000d4303bc138c545dc7091ae214cb4e4210b5bae2805c6c3eeb72ba0350408d");
    assert_eq!(block.hash, block.calculate_hash());
}

#[test]
fn mined_blocks_meet_the_difficulty_of_the_ledger() {
    for difficulty in 1..4usize {
        let mut ledger = two_wallets();
        ledger.difficulty = difficulty;
        ledger.create_transaction(request("alice", "pa", "bob", 1)).unwrap();
        ledger.mine_pending_transactions_at(&text("bob"), 9).unwrap();
        ledger.mine_pending_transactions_at(&text("bob"), 10).unwrap();
        for block in &ledger.chain[1..] {
            assert!(block.meets(difficulty));
            assert_eq!(&block.hash[0..difficulty], "0".repeat(difficulty));
        }
        assert!(ledger.is_valid());
    }
}

#[test]
fn receiver_is_credited_for_every_pending_transfer_and_logs_each() {
    let mut ledger = two_wallets();
    ledger.create_transaction(request("alice", "pa", "bob", 10)).unwrap();
    ledger.create_transaction(request("alice", "pa", "bob", 20)).unwrap();
    ledger.create_transaction(request("alice", "pa", "bob", 30)).unwrap();
    ledger.mine_pending_transactions_at(&text("alice"), 9).unwrap();
    assert_eq!(balance(&ledger, "bob", "pb"), 60);
    assert_eq!(balance(&ledger, "alice", "pa"), 40);
    let log = ledger.get_transactions_of_wallet(&text("bob"), &text("pb")).unwrap();
    assert_eq!(log.len(), 3);
    for (entry, amount) in log.iter().zip([10u32, 20, 30]) {
        assert_eq!(entry.from_address, "alice");
        assert_eq!(entry.from_password, "pa");
        assert_eq!(entry.to_address, "bob");
        assert_eq!(entry.amount, amount);
    }
    assert_eq!(ledger.chain[1].transactions.len(), 3);
}

#[test]
fn receiver_is_credited_on_its_current_balance_not_on_the_copy_in_the_transfer() {
    let mut ledger = two_wallets();
    ledger.create_transaction(request("alice", "pa", "bob", 10)).unwrap();
    ledger
        .add_coins(WalletCoins { address: text("bob"), password: text("pb"), coins: 1000 })
        .unwrap();
    assert_eq!(ledger.pending_transactions[0].to_wallet.balance, 0);
    ledger.mine_pending_transactions_at(&text("alice"), 9).unwrap();
    assert_eq!(balance(&ledger, "bob", "pb"), 1010);
}

#[test]
fn reward_is_credited_one_block_late() {
    let mut ledger = two_wallets();
    ledger.create_transaction(request("alice", "pa", "bob", 10)).unwrap();
    ledger.mine_pending_transactions_at(&text("alice"), 9).unwrap();
    assert_eq!(balance(&ledger, "alice", "pa"), 90);
    ledger.mine_pending_transactions_at(&text("bob"), 10).unwrap();
    assert_eq!(balance(&ledger, "alice", "pa"), 190);
    assert_eq!(balance(&ledger, "bob", "pb"), 10);
    ledger.mine_pending_transactions_at(&text("bob"), 11).unwrap();
    assert_eq!(balance(&ledger, "bob", "pb"), 110);
    let log = ledger.get_transactions_of_wallet(&text("alice"), &text("pa")).unwrap();
    assert_eq!(log.len(), 2);
    assert_eq!(log[1].from_address, "MINING");
    assert_eq!(log[1].from_password, "");
    assert_eq!(log[1].to_address, "alice");
    assert_eq!(log[1].amount, 100);
}

#[test]
fn mining_for_an_unknown_wallet_fails_after_the_receivers_were_credited() {
    let mut ledger = two_wallets();
    ledger.create_transaction(request("alice", "pa", "bob", 10)).unwrap();
    assert_eq!(
        ledger.mine_pending_transactions_at(&text("nobody"), 9),
        Err(BlockChainError::InvalidRewardAddress)
    );
    assert_eq!(ledger.chain.len(), 1);
    assert_eq!(ledger.pending_transactions.len(), 1);
    assert_eq!(balance(&ledger, "bob", "pb"), 10);
    assert_eq!(balance(&ledger, "alice", "pa"), 90);
}

#[test]
fn mining_fails_where_a_receiver_has_no_wallet() {
    let mut ledger = two_wallets();
    ledger.create_transaction(request("alice", "pa", "bob", 10)).unwrap();
    ledger.pending_transactions.push(Transaction::new(
        Wallet::new(text("alice"), 0, text("pa")),
        Wallet::new(text("gone"), 0, text("pg")),
        5,
    ));
    ledger.create_transaction(request("alice", "pa", "bob", 20)).unwrap();
    assert_eq!(
        ledger.mine_pending_transactions_at(&text("alice"), 9),
        Err(BlockChainError::InvalidToAddress)
    );
    // The credit made before the failure stays; what comes after it is not made.
    assert_eq!(balance(&ledger, "bob", "pb"), 10);
    assert_eq!(ledger.chain.len(), 1);
    assert_eq!(ledger.pending_transactions.len(), 3);
}

#[test]
fn mining_fails_where_a_credit_would_pass_the_largest_balance() {
    let mut ledger = two_wallets();
    ledger.create_transaction(request("alice", "pa", "bob", 10)).unwrap();
    ledger
        .add_coins(WalletCoins { address: text("bob"), password: text("pb"), coins: u32::MAX - 9 })
        .unwrap();
    assert_eq!(
        ledger.mine_pending_transactions_at(&text("alice"), 9),
        Err(BlockChainError::BalanceOverflow)
    );
    assert_eq!(balance(&ledger, "bob", "pb"), u32::MAX - 9);
    assert_eq!(ledger.chain.len(), 1);
    assert_eq!(ledger.pending_transactions.len(), 1);
}

#[test]
fn chain_built_by_mining_is_valid() {
    let mut ledger = two_wallets();
    assert!(ledger.is_valid());
    for round in 0..4u64 {
        ledger.create_transaction(request("alice", "pa", "bob", 5)).unwrap();
        assert!(ledger.mine_pending_transactions_at(&text("alice"), 10 + round).is_ok());
        assert!(ledger.is_valid());
    }
    assert_eq!(ledger.chain.len(), 5);
    for (i, block) in ledger.chain.iter().enumerate() {
        assert_eq!(block.index, i);
        assert!(block.is_sealed());
        if i > 0 {
            assert_eq!(block.previous_hash, ledger.chain[i - 1].hash);
            assert!(block.meets(2));
        }
    }
}

#[test]
fn chain_built_by_mining_with_the_clock_is_valid() {
    let mut ledger = BlockChain::default();
    ledger
        .create_wallet(WalletInfo { address: text("alice"), balance: 100, password: text("pa") })
        .unwrap();
    ledger.create_transaction(request("alice", "pa", "alice", 5)).unwrap();
    assert!(ledger.mine_pending_transactions(&text("alice")).is_ok());
    assert!(ledger.mine_pending_transactions(&text("alice")).is_ok());
    assert!(ledger.is_valid());
    assert_eq!(ledger.chain.len(), 3);
    assert!(ledger.chain[2].timestamp >= ledger.chain[0].timestamp);
}

#[test]
fn changed_hash_makes_the_chain_invalid() {
    let mut ledger = two_wallets();
    ledger.create_transaction(request("alice", "pa", "bob", 5)).unwrap();
    ledger.mine_pending_transactions_at(&text("alice"), 9).unwrap();
    ledger.mine_pending_transactions_at(&text("alice"), 10).unwrap();
    assert!(ledger.is_valid());
    for i in 0..3 {
        let kept = ledger.chain[i].hash.clone();
        ledger.chain[i].hash = text("00ff");
        assert!(!ledger.is_valid());
        ledger.chain[i].hash = kept;
        assert!(ledger.is_valid());
    }
}

#[test]
fn changed_previous_hash_makes_the_chain_invalid() {
    let mut ledger = two_wallets();
    ledger.create_transaction(request("alice", "pa", "bob", 5)).unwrap();
    ledger.mine_pending_transactions_at(&text("alice"), 9).unwrap();
    ledger.mine_pending_transactions_at(&text("alice"), 10).unwrap();
    for i in 1..3 {
        let kept = ledger.chain[i].previous_hash.clone();
        ledger.chain[i].previous_hash = text("00ff");
        assert!(!ledger.is_valid());
        ledger.chain[i].previous_hash = kept;
        assert!(ledger.is_valid());
    }
}

#[test]
fn changed_content_makes_the_chain_invalid() {
    let mut ledger = two_wallets();
    ledger.create_transaction(request("alice", "pa", "bob", 5)).unwrap();
    ledger.mine_pending_transactions_at(&text("alice"), 9).unwrap();
    ledger.chain[1].transactions[0].amount = 500;
    assert!(!ledger.is_valid());
    ledger.chain[1].transactions[0].amount = 5;
    assert!(ledger.is_valid());
    ledger.chain[1].nonce += 1;
    assert!(!ledger.is_valid());
}

#[test]
fn nothing_checks_a_genesis_block_that_stands_alone() {
    let mut ledger = BlockChain::new_at(5);
    ledger.chain[0].hash = text("00ff");
    ledger.chain[0].previous_hash = text("00ff");
    assert!(ledger.is_valid());
}

#[test]
fn get_chain_returns_a_copy_of_the_chain() {
    let mut ledger = two_wallets();
    ledger.create_transaction(request("alice", "pa", "bob", 5)).unwrap();
    ledger.mine_pending_transactions_at(&text("alice"), 9).unwrap();
    let mut chain = ledger.get_chain();
    assert_eq!(chain.len(), 2);
    for (copy, block) in chain.iter().zip(ledger.chain.iter()) {
        assert_eq!(copy.index, block.index);
        assert_eq!(copy.timestamp, block.timestamp);
        assert_eq!(copy.hash, block.hash);
        assert_eq!(copy.previous_hash, block.previous_hash);
        assert_eq!(copy.nonce, block.nonce);
        assert_eq!(copy.transactions.len(), block.transactions.len());
    }
    chain[1].hash = text("changed");
    assert!(ledger.is_valid());
}
