use paradigm_core::address::Address;
use paradigm_core::transaction::Transaction;
use paradigm_core::transaction_throughput::{ProcessingStage, ProcessorConfig, TransactionPool};

fn create_test_transaction(index: u64) -> Transaction {
    Transaction {
        id: uuid::Uuid::new_v4().as_u128(),
        from: Address([index as u8; 32]),
        to: Address([(index + 1) as u8; 32]),
        amount: 100,
        fee: 10,
        timestamp: chrono::Utc::now().timestamp_nanos_opt().unwrap(),
        signature: vec![index as u8; 64],
        nonce: index,
        message: None,
    }
}

fn create_test_transaction_with_nonce(from: Address, nonce: u64) -> Transaction {
    Transaction {
        id: uuid::Uuid::new_v4().as_u128(),
        from,
        to: Address([255u8; 32]),
        amount: 100,
        fee: 10,
        timestamp: chrono::Utc::now().timestamp_nanos_opt().unwrap(),
        signature: vec![nonce as u8; 64],
        nonce,
        message: None,
    }
}

fn with_fee(from: u8, nonce: u64, fee: u64, id: u128) -> Transaction {
    Transaction {
        id,
        from: Address([from; 32]),
        to: Address([200u8; 32]),
        amount: 1,
        fee,
        timestamp: 0,
        signature: vec![0u8; 64],
        nonce,
        message: None,
    }
}

#[test]
fn transaction_throughput_test_transaction_pool() {
    let mut pool = TransactionPool::new(10, 5);

    let tx1 = create_test_transaction(1);
    let tx2 = create_test_transaction(2);

    assert!(pool.add_transaction(tx1));
    assert!(pool.add_transaction(tx2));

    let ready = pool.get_ready_transactions(10);
    assert_eq!(ready.len(), 2);

    let stats = pool.get_stats();
    assert_eq!(stats.total_received, 2);
    assert_eq!(stats.current_pool_size, 2);
}

#[test]
fn test_transaction_pool_nonce_ordering() {
    let mut pool = TransactionPool::new(10, 5);
    let address = Address([1u8; 32]);

    // Add transactions with nonces 2, 1, 3 (out of order)
    let tx2 = create_test_transaction_with_nonce(address, 2);
    let tx1 = create_test_transaction_with_nonce(address, 1);
    let tx3 = create_test_transaction_with_nonce(address, 3);

    pool.add_transaction(tx2);
    pool.add_transaction(tx1);
    pool.add_transaction(tx3);

    let ready = pool.get_ready_transactions(1);
    assert_eq!(ready.len(), 1);
    assert_eq!(ready[0].nonce, 1); // Should get the lowest nonce first
}

#[test]
fn capacity_and_per_account_limits() {
    let mut pool = TransactionPool::new(3, 2);
    assert!(pool.add_transaction_at(with_fee(1, 1, 10, 1), 0));
    assert!(pool.add_transaction_at(with_fee(1, 2, 10, 2), 0));
    assert!(!pool.add_transaction_at(with_fee(1, 3, 10, 3), 0));
    assert!(pool.add_transaction_at(with_fee(2, 1, 10, 4), 0));
    assert!(!pool.add_transaction_at(with_fee(3, 1, 10, 5), 0));
    let stats = pool.get_stats();
    assert_eq!(stats.total_received, 3);
    assert_eq!(stats.current_pool_size, 3);
}

#[test]
fn higher_fee_replaces_same_nonce() {
    let mut pool = TransactionPool::new(10, 5);
    assert!(pool.add_transaction_at(with_fee(1, 7, 10, 100), 0));
    assert!(pool.add_transaction_at(with_fee(1, 7, 20, 101), 0));
    assert_eq!(pool.get_stats().current_pool_size, 1);
    assert!(pool.remove_transaction(100).is_none());
    let ready = pool.get_ready_transactions(10);
    assert_eq!(ready.len(), 1);
    assert_eq!(ready[0].id, 101);
}

#[test]
fn lower_fee_does_not_replace_but_takes_the_nonce() {
    let mut pool = TransactionPool::new(10, 5);
    assert!(pool.add_transaction_at(with_fee(1, 7, 20, 100), 0));
    assert!(pool.add_transaction_at(with_fee(1, 7, 10, 101), 0));
    assert_eq!(pool.get_stats().current_pool_size, 2);
    let ready: Vec<u128> = pool.get_ready_transactions(10).iter().map(|t| t.id).collect();
    assert_eq!(ready, vec![100, 101]);
}

#[test]
fn ready_goes_from_highest_fee_down() {
    let mut pool = TransactionPool::new(10, 5);
    assert!(pool.add_transaction_at(with_fee(1, 1, 5, 1), 0));
    assert!(pool.add_transaction_at(with_fee(2, 1, 50, 2), 0));
    assert!(pool.add_transaction_at(with_fee(3, 1, 20, 3), 0));
    let ready: Vec<u128> = pool.get_ready_transactions(10).iter().map(|t| t.id).collect();
    assert_eq!(ready, vec![2, 3, 1]);
    let two: Vec<u128> = pool.get_ready_transactions(2).iter().map(|t| t.id).collect();
    assert_eq!(two, vec![2, 3]);
    assert!(pool.get_ready_transactions(0).is_empty());
}

#[test]
fn only_received_transactions_are_ready() {
    let mut pool = TransactionPool::new(10, 5);
    assert!(pool.add_transaction_at(with_fee(1, 1, 5, 1), 0));
    assert!(pool.add_transaction_at(with_fee(2, 1, 5, 2), 0));
    assert!(pool.update_transaction_stage(1, ProcessingStage::Validated));
    assert!(!pool.update_transaction_stage(9, ProcessingStage::Validated));
    let ready: Vec<u128> = pool.get_ready_transactions(10).iter().map(|t| t.id).collect();
    assert_eq!(ready, vec![2]);
}

#[test]
fn removal_reopens_the_next_nonce() {
    let mut pool = TransactionPool::new(10, 5);
    assert!(pool.add_transaction_at(with_fee(1, 1, 5, 1), 0));
    assert!(pool.add_transaction_at(with_fee(1, 2, 5, 2), 0));
    let first: Vec<u128> = pool.get_ready_transactions(10).iter().map(|t| t.id).collect();
    assert_eq!(first, vec![1]);
    let removed = pool.remove_transaction(1).unwrap();
    assert_eq!(removed.nonce, 1);
    let next: Vec<u128> = pool.get_ready_transactions(10).iter().map(|t| t.id).collect();
    assert_eq!(next, vec![2]);
}

#[test]
fn cleanup_removes_only_old_transactions() {
    let mut pool = TransactionPool::new(10, 5);
    assert!(pool.add_transaction_at(with_fee(1, 1, 5, 1), 1_000));
    assert!(pool.add_transaction_at(with_fee(2, 1, 5, 2), 200_000));
    assert!(pool.add_transaction_at(with_fee(3, 1, 5, 3), 400_000));
    let removed = pool.cleanup_expired_at(400_000, 300_000);
    assert_eq!(removed, 1);
    assert_eq!(pool.get_stats().current_pool_size, 2);
    assert!(pool.remove_transaction(1).is_none());
    assert_eq!(pool.cleanup_expired_at(400_000, 300_000), 0);
}

#[test]
fn processor_config_for_cpus() {
    let c = ProcessorConfig::for_cpus(8);
    assert_eq!(c.validation_workers, 8);
    assert_eq!(c.execution_workers, 4);
    assert_eq!(c.batch_size, 100);
    assert_eq!(c.max_concurrent_transactions, 1000);
    assert_eq!(c.processing_timeout_ms, 5000);
}
