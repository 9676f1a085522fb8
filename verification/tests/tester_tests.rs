use paradigm_core::address::{Address, AddressError, HexError};
use paradigm_core::tokenomics::decay_mechanism::DecayMechanism;
use paradigm_core::tokenomics::reward_engine::{RewardEngine, MAX_BASE_REWARD};
use paradigm_core::transaction::TransactionError;
use paradigm_core::transaction_tester::{recommendations_for, test_error_message, TestError, TransactionTester};
use paradigm_core::transaction_throughput::{
    execution_result, settle_transfer, validated_stage, ExecutionError, ExecutionOutcome, ProcessingStage,
};
use paradigm_core::wallet_manager::{WalletFile, WalletManager};

const ADDR_A: &str = "0101010101010101010101010101010101010101010101010101010101010101";
const ADDR_B: &str = "02020202020202020202020202020202020202020202020202020202020202ff";

#[test]
fn address_round_trips_through_text() {
    let a = Address::from_string(ADDR_B).unwrap();
    assert_eq!(a.0[0], 2);
    assert_eq!(a.0[31], 255);
    assert_eq!(a.to_string(), ADDR_B);
}

#[test]
fn address_text_of_wrong_length_is_refused() {
    assert_eq!(Address::from_string("0102"), Err(AddressError::InvalidLength));
}

#[test]
fn address_text_that_is_not_hex_is_refused() {
    assert!(matches!(Address::from_string("zz"), Err(AddressError::InvalidHex(_))));
    assert!(matches!(Address::from_string("abc"), Err(AddressError::InvalidHex(HexError::OddLength))));
}

#[test]
fn recommendations_for_fast_success() {
    let r = recommendations_for(true, 50);
    assert_eq!(r, vec!["✅ Transaction system working correctly".to_string(), "🚀 Excellent transaction speed!".to_string()]);
}

#[test]
fn recommendations_for_slow_failure() {
    let r = recommendations_for(false, 6000);
    assert_eq!(
        r,
        vec![
            "❌ Transaction failed - check network connectivity".to_string(),
            "💡 Verify wallet has sufficient balance".to_string(),
            "⚠️ Transaction took longer than expected (>5s)".to_string(),
            "💡 Consider checking network latency".to_string(),
        ]
    );
}

#[test]
fn recommendations_for_ordinary_speed() {
    assert_eq!(recommendations_for(true, 100), vec!["✅ Transaction system working correctly".to_string()]);
    assert_eq!(recommendations_for(true, 5000), vec!["✅ Transaction system working correctly".to_string()]);
}

#[test]
fn test_error_messages() {
    assert_eq!(test_error_message(TestError::InvalidAddress(AddressError::InvalidLength)), "invalid address");
    assert_eq!(test_error_message(TestError::Transaction(TransactionError::ZeroAmount)), "amount is zero");
}

#[test]
fn execute_transaction_test_succeeds_between_valid_addresses() {
    let tester = TransactionTester::new();
    let hash = tester.execute_transaction_test(ADDR_A, ADDR_B, 1_000_000, Some("hello")).unwrap();
    assert_eq!(hash.len(), 64);
    assert!(hash.chars().all(|c| c.is_ascii_hexdigit()));
}

#[test]
fn execute_transaction_test_refuses_bad_address() {
    let tester = TransactionTester::new();
    let r = tester.execute_transaction_test("not-an-address", ADDR_B, 1_000_000, None);
    assert!(matches!(r, Err(TestError::InvalidAddress(_))));
}

#[test]
fn execute_transaction_test_refuses_zero_amount() {
    let tester = TransactionTester::new();
    let r = tester.execute_transaction_test(ADDR_A, ADDR_B, 0, None);
    assert_eq!(r, Err(TestError::Transaction(TransactionError::ZeroAmount)));
}

#[test]
fn record_test_result_keeps_outcome_and_advice() {
    let mut tester = TransactionTester::new();
    let ok = tester.record_test_result(
        7,
        ADDR_A.to_string(),
        ADDR_B.to_string(),
        500,
        None,
        Ok("abcd".to_string()),
        40,
        1_700_000_000,
    );
    assert!(ok.success);
    assert_eq!(ok.tx_hash, Some("abcd".to_string()));
    assert_eq!(ok.test_type, "wallet_to_wallet");
    assert_eq!(ok.recommendations.len(), 2);
    let failed = tester.record_test_result(
        8,
        ADDR_A.to_string(),
        ADDR_B.to_string(),
        0,
        None,
        Err(TestError::Transaction(TransactionError::ZeroAmount)),
        200,
        1_700_000_001,
    );
    assert!(!failed.success);
    assert_eq!(failed.error_message, Some("amount is zero".to_string()));
    assert_eq!(failed.tx_hash, None);
    assert_eq!(tester.get_test_results().len(), 2);
    assert_eq!(tester.get_test_results()[0].test_id, 7);
    tester.clear_test_results();
    assert!(tester.get_test_results().is_empty());
}

#[test]
fn test_addresses_adds_two_when_wallet_is_empty() {
    let mut manager = WalletManager::new("unused.json".to_string(), WalletFile::new());
    let (from, to) = TransactionTester::test_addresses(&mut manager);
    assert_eq!(from.len(), 64);
    assert_eq!(to.len(), 64);
    assert_ne!(from, to);
    assert_eq!(manager.list_addresses().len(), 2);
    let (again_from, again_to) = TransactionTester::test_addresses(&mut manager);
    assert_eq!(manager.list_addresses().len(), 2);
    assert!(again_from == from || again_from == to);
    assert!(again_to == from || again_to == to);
    assert_ne!(again_from, again_to);
}

#[test]
fn settle_transfer_moves_amount_and_fee() {
    assert_eq!(settle_transfer(1000, 5, 300, 10), Ok((690, 305)));
    assert_eq!(settle_transfer(310, 0, 300, 10), Ok((0, 300)));
    assert_eq!(settle_transfer(309, 0, 300, 10), Err(ExecutionError::InsufficientBalance));
}

#[test]
fn validated_stage_follows_validity() {
    assert_eq!(validated_stage(true), ProcessingStage::Validated);
    assert_eq!(validated_stage(false), ProcessingStage::Failed);
}

#[test]
fn execution_results_by_outcome() {
    let done = execution_result(1, 25, ExecutionOutcome::Completed, 3);
    assert!(done.success);
    assert_eq!(done.gas_used, 25);
    assert_eq!(done.block_number, Some(1));
    let failed = execution_result(2, 25, ExecutionOutcome::Failed("Insufficient balance".to_string()), 4);
    assert!(!failed.success);
    assert_eq!(failed.stage, ProcessingStage::Failed);
    assert_eq!(failed.gas_used, 0);
    assert_eq!(failed.error_message, Some("Insufficient balance".to_string()));
    let late = execution_result(3, 25, ExecutionOutcome::TimedOut, 5000);
    assert_eq!(late.error_message, Some("Execution timeout".to_string()));
    assert_eq!(late.processing_time_ms, 5000);
}

#[test]
fn base_reward_is_capped() {
    let engine = RewardEngine::new();
    assert_eq!(engine.calculate_base_reward(1000), 1_000_000);
    assert_eq!(engine.calculate_base_reward(0), 0);
    assert_eq!(engine.calculate_base_reward(5_000_000), MAX_BASE_REWARD);
}

#[test]
fn reward_stats_sum_and_average() {
    let mut engine = RewardEngine::new();
    let empty = engine.get_reward_stats();
    assert_eq!(empty.total_contributions, 0);
    assert_eq!(empty.average_reward, 0);
    engine.record_reward(1000, 2_000_000);
    let one = engine.get_reward_stats();
    assert_eq!(one.total_contributions, 1);
    assert_eq!(one.total_rewards_distributed, 2_000_000);
    engine.record_reward(10, 5);
    let two = engine.get_reward_stats();
    assert_eq!(two.total_contributions, 2);
    assert_eq!(two.total_rewards_distributed, 2_000_005);
    assert_eq!(two.average_reward, 1_000_002);
}

#[test]
fn reward_history_drops_oldest_when_full() {
    let mut engine = RewardEngine::new();
    for i in 0..10_000u64 {
        engine.record_reward(1, i);
    }
    assert_eq!(engine.get_reward_stats().total_contributions, 10_000);
    engine.record_reward(1, 10_000);
    let stats = engine.get_reward_stats();
    assert_eq!(stats.total_contributions, 9_001);
    let expected: u64 = (1000..=10_000u64).sum();
    assert_eq!(stats.total_rewards_distributed, expected);
}

#[test]
fn decay_leaves_reward_unchanged() {
    let decay = DecayMechanism::new();
    assert_eq!(decay.apply_temporal_dynamics(&Address([3u8; 32]), 12345), 12345);
}
