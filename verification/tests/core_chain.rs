use nusa_chain::block::Block;
use nusa_chain::executor::TransactionExecutor;
use nusa_chain::mempool::{Mempool, PoolError};
use nusa_chain::producer::BlockProducer;
use nusa_chain::state::WorldState;
use nusa_chain::transaction::Transaction;

fn make_producer(pool_size: usize) -> BlockProducer {
    let mut state = WorldState::new();
    state.create_account("Alice".to_string(), 1000);
    state.create_account("Bob".to_string(), 0);
    let mempool = Mempool::new(pool_size);
    BlockProducer::new(mempool, state, "0xValidator".to_string(), 500)
}

#[test]
fn alice_pays_bob_in_one_cycle() {
    let mut producer = make_producer(100);
    let tx = Transaction::new("Alice".to_string(), "Bob".to_string(), 100, 0);
    producer.mempool.add_transaction(tx).unwrap();
    let receipts = producer.produce_block(1_700_000_000).expect("a block is produced");
    assert_eq!(receipts.len(), 1);
    assert!(receipts[0].status);
    assert_eq!(producer.executor.state.get_balance("Alice"), Some(900));
    assert_eq!(producer.executor.state.get_balance("Bob"), Some(100));
}

#[test]
fn insufficient_balance_fails_and_leaves_state() {
    let mut producer = make_producer(100);
    let tx = Transaction::new("Bob".to_string(), "Alice".to_string(), 50, 0);
    producer.mempool.add_transaction(tx).unwrap();
    let receipts = producer.produce_block(1_700_000_000).unwrap();
    assert_eq!(receipts.len(), 1);
    assert!(!receipts[0].status);
    assert_eq!(receipts[0].gas_used, 21000);
    assert_eq!(receipts[0].logs.len(), 1);
    assert_eq!(receipts[0].logs[0], "Execution failed: Insufficient balance");
    assert_eq!(producer.executor.state.get_balance("Bob"), Some(0));
    assert_eq!(producer.executor.state.get_balance("Alice"), Some(1000));
}

#[test]
fn duplicate_submission_is_rejected() {
    let mut mempool = Mempool::new(10);
    let tx1 = Transaction::new("Alice".to_string(), "Bob".to_string(), 1, 0);
    let tx2 = Transaction::new("Alice".to_string(), "Bob".to_string(), 1, 0);
    assert!(mempool.add_transaction(tx1).is_ok());
    assert_eq!(mempool.add_transaction(tx2), Err(PoolError::DuplicateTransaction));
}

#[test]
fn full_pool_rejects_until_drained() {
    let mut producer = make_producer(1);
    let tx1 = Transaction::new("Alice".to_string(), "Bob".to_string(), 1, 0);
    let tx2 = Transaction::new("Alice".to_string(), "Bob".to_string(), 2, 1);
    assert!(producer.mempool.add_transaction(tx1).is_ok());
    let tx2_again = Transaction::new("Alice".to_string(), "Bob".to_string(), 2, 1);
    assert_eq!(producer.mempool.add_transaction(tx2), Err(PoolError::PoolFull));
    producer.produce_block(1_700_000_000).unwrap();
    assert!(producer.mempool.add_transaction(tx2_again).is_ok());
}

#[test]
fn blocks_chain_by_parent_hash() {
    let mut producer = make_producer(100);
    let t1 = Transaction::new("Alice".to_string(), "Bob".to_string(), 10, 0);
    producer.mempool.add_transaction(t1).unwrap();
    producer.produce_block(1_700_000_000).unwrap();
    let t2 = Transaction::new("Alice".to_string(), "Bob".to_string(), 20, 1);
    producer.mempool.add_transaction(t2).unwrap();
    producer.produce_block(1_700_000_500).unwrap();
    let blocks = producer.blocks();
    assert_eq!(blocks.len(), 2);
    assert_eq!(blocks[0].parent_hash, "0x0");
    assert_eq!(blocks[1].parent_hash, blocks[0].hash);
    assert!(blocks[0].number < blocks[1].number);
    assert!(blocks[0].verify());
    assert!(blocks[1].verify());
}

#[test]
fn gas_budget_is_never_exceeded() {
    let mut block = Block::new_at(1, 1_700_000_000, "0x0".to_string(), "v".to_string());
    let mut big = Transaction::new("Alice".to_string(), "Bob".to_string(), 10, 0);
    big.gas_limit = 30_000_001;
    assert!(!block.add_transaction(big));
    assert_eq!(block.transactions.len(), 0);
    let mut fits = Transaction::new("Alice".to_string(), "Bob".to_string(), 10, 1);
    fits.gas_limit = 30_000_000;
    assert!(block.add_transaction(fits));
    assert_eq!(block.gas_used, 30_000_000);
    let mut one_more = Transaction::new("Alice".to_string(), "Bob".to_string(), 10, 2);
    one_more.gas_limit = 1;
    assert!(!block.add_transaction(one_more));
    assert_eq!(block.gas_used, 30_000_000);
}

#[test]
fn batch_pull_is_fifo_and_bounded() {
    let mut mempool = Mempool::new(10);
    for n in 0..5u64 {
        let tx = Transaction::new("Alice".to_string(), "Bob".to_string(), 1, n);
        mempool.add_transaction(tx).unwrap();
    }
    assert_eq!(mempool.size(), 5);
    let batch = mempool.get_transactions(3);
    assert_eq!(batch.len(), 3);
    assert_eq!(batch[0].nonce, 0);
    assert_eq!(batch[1].nonce, 1);
    assert_eq!(batch[2].nonce, 2);
    assert_eq!(mempool.size(), 2);
}

#[test]
fn transfer_conserves_total_balance() {
    let mut state = WorldState::new();
    state.create_account("Alice".to_string(), 700);
    state.create_account("Bob".to_string(), 300);
    state.transfer("Alice", "Bob", 250).unwrap();
    assert_eq!(state.get_balance("Alice"), Some(450));
    assert_eq!(state.get_balance("Bob"), Some(550));
    assert_eq!(state.get_nonce("Alice"), 1);
    let err = state.transfer("Nobody", "Bob", 1);
    assert!(err.is_err());
    // A transfer to an unknown recipient creates it with the credit.
    state.transfer("Bob", "Carol", 50).unwrap();
    assert_eq!(state.get_balance("Carol"), Some(50));
    assert_eq!(
        state.get_balance("Alice").unwrap() + state.get_balance("Bob").unwrap()
            + state.get_balance("Carol").unwrap(),
        1000
    );
}

#[test]
fn structurally_invalid_transaction_burns_no_gas() {
    let mut producer = make_producer(100);
    let tx = Transaction::new("".to_string(), "Bob".to_string(), 5, 0);
    producer.mempool.add_transaction(tx).unwrap();
    let receipts = producer.produce_block(1_700_000_000).unwrap();
    assert!(!receipts[0].status);
    assert_eq!(receipts[0].gas_used, 0);
    assert_eq!(receipts[0].logs[0], "Transaction verification failed");
}

#[test]
fn empty_pull_produces_no_block() {
    let mut producer = make_producer(100);
    assert!(producer.produce_block(1_700_000_000).is_none());
    assert_eq!(producer.blocks().len(), 0);
    assert_eq!(producer.get_current_block_number(), 1);
}

#[test]
fn transaction_hash_is_hex_and_recomputable() {
    let tx = Transaction::new("a".to_string(), "b".to_string(), 1, 0);
    assert_eq!(tx.hash.len(), 64);
    assert!(tx.hash.chars().all(|c| c.is_ascii_hexdigit()));
    assert_eq!(tx.hash, tx.calculate_hash());
    assert!(tx.verify());
    let no_value = Transaction::new("a".to_string(), "b".to_string(), 0, 0);
    assert!(!no_value.verify());
}

#[test]
fn forgetting_a_hash_allows_resubmission() {
    let mut mempool = Mempool::new(10);
    let tx = Transaction::new("Alice".to_string(), "Bob".to_string(), 1, 0);
    let hash = mempool.add_transaction(tx).unwrap();
    mempool.get_transactions(1);
    let tx_again = Transaction::new("Alice".to_string(), "Bob".to_string(), 1, 0);
    // The hash is still known after the pull...
    assert_eq!(mempool.add_transaction(tx_again), Err(PoolError::DuplicateTransaction));
    // ...until it is explicitly forgotten.
    mempool.remove_transaction(&hash);
    let tx_final = Transaction::new("Alice".to_string(), "Bob".to_string(), 1, 0);
    assert!(mempool.add_transaction(tx_final).is_ok());
}

#[test]
fn block_headers_summarize_blocks() {
    let mut producer = make_producer(100);
    let tx = Transaction::new("Alice".to_string(), "Bob".to_string(), 10, 0);
    producer.mempool.add_transaction(tx).unwrap();
    producer.produce_block(1_700_000_000).unwrap();
    let block = &producer.blocks()[0];
    let header = nusa_chain::block::BlockHeader::of_block(block);
    assert_eq!(header.number, block.number);
    assert_eq!(header.hash, block.hash);
    assert_eq!(header.parent_hash, block.parent_hash);
    assert_eq!(header.timestamp, 1_700_000_000);
}

#[test]
fn executor_batches_conserve_the_total() {
    let mut state = WorldState::new();
    state.create_account("Alice".to_string(), 600);
    state.create_account("Bob".to_string(), 400);
    let mut exec = TransactionExecutor::new(state);
    let batch = vec![
        Transaction::new("Alice".to_string(), "Bob".to_string(), 100, 0),
        Transaction::new("Bob".to_string(), "Carol".to_string(), 500, 0),
        Transaction::new("Carol".to_string(), "Alice".to_string(), 9_999, 0), // fails
    ];
    let receipts = exec.execute_batch(batch, 1);
    assert_eq!(receipts.len(), 3);
    assert!(receipts[0].status);
    assert!(receipts[1].status);
    assert!(!receipts[2].status);
    let total = exec.state.get_balance("Alice").unwrap() + exec.state.get_balance("Bob").unwrap()
        + exec.state.get_balance("Carol").unwrap();
    assert_eq!(total, 1000);
}

#[test]
fn recreating_an_account_makes_it_fresh() {
    let mut state = WorldState::new();
    state.create_account("Alice".to_string(), 500);
    state.create_account("Bob".to_string(), 0);
    state.transfer("Alice", "Bob", 100).unwrap();
    assert_eq!(state.get_nonce("Alice"), 1);
    // Re-creating replaces the account wholesale: new balance, zero nonce.
    state.create_account("Alice".to_string(), 42);
    assert_eq!(state.get_balance("Alice"), Some(42));
    assert_eq!(state.get_nonce("Alice"), 0);
    // The other account is untouched.
    assert_eq!(state.get_balance("Bob"), Some(100));
    assert_eq!(state.get_nonce("Bob"), 0);
}
