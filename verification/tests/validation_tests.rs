use paradigm_core::address::Address;
use paradigm_core::transaction::Transaction;
use paradigm_core::transaction_validation::{
    NetworkValidationConfig, TransactionValidator, ValidationError, ValidationRuleType,
};

fn keys(seed: u8) -> ([u8; 32], [u8; 32]) {
    let secret = [seed; 32];
    let public = ed25519_dalek::SigningKey::from_bytes(&secret).verifying_key().to_bytes();
    (secret, public)
}

fn now_nanos() -> i64 {
    chrono::Utc::now().timestamp_nanos_opt().unwrap()
}

#[test]
fn test_transaction_validator() {
    let config = NetworkValidationConfig::default();
    let validator = TransactionValidator::new(config);

    // Test with default rules
    let rules = validator.get_validation_rules();
    assert!(!rules.is_empty());
    assert!(rules.iter().any(|r| r.rule_type == ValidationRuleType::Signature));
}

#[test]
fn test_signature_validation() {
    let config = NetworkValidationConfig::default();
    let mut validator = TransactionValidator::new(config);

    let (_secret, public_key) = keys(41);
    let address = Address::from_public_key(&public_key);
    let (_s2, other) = keys(42);

    let transaction = Transaction {
        id: uuid::Uuid::new_v4().as_u128(),
        from: address,
        to: Address::from_public_key(&other),
        amount: 1000_00000000,
        fee: 1_000_000,
        message: None,
        timestamp: now_nanos(),
        signature: vec![1, 2, 3], // Invalid signature for testing
        nonce: 0,
    };

    // Should fail due to invalid signature
    let result = validator.validate_transaction(&transaction, 2000_00000000, &public_key);
    assert!(!result.is_valid);
    assert!(result.errors.contains(&ValidationError::InvalidSignature));
}

#[test]
fn test_balance_validation() {
    let config = NetworkValidationConfig::default();
    let mut validator = TransactionValidator::new(config);

    let (_secret, public_key) = keys(43);
    let address = Address::from_public_key(&public_key);
    let (_s2, other) = keys(44);

    let transaction = Transaction {
        id: uuid::Uuid::new_v4().as_u128(),
        from: address,
        to: Address::from_public_key(&other),
        amount: 1000_00000000,
        fee: 1_000_000,
        message: None,
        timestamp: now_nanos(),
        signature: vec![],
        nonce: 0,
    };

    // Should fail due to insufficient balance
    let result = validator.validate_transaction(&transaction, 500_00000000, &public_key);
    assert!(!result.is_valid);
    assert!(result.errors.contains(&ValidationError::InsufficientBalance));
}

#[test]
fn a_signed_transaction_passes_once() {
    let mut validator = TransactionValidator::new(NetworkValidationConfig::default());
    let (secret, public_key) = keys(45);
    let from = Address::from_public_key(&public_key);
    let tx = Transaction::new(from, Address([9u8; 32]), 5_00000000, 1_000_000, now_nanos(), &secret).unwrap();
    let first = validator.validate_transaction(&tx, 10_00000000, &public_key);
    assert!(first.is_valid, "{:?}", first.errors);
    assert!(first.errors.is_empty());
    assert_eq!(first.validation_version, "1.0.0");
    let second = validator.validate_transaction(&tx, 10_00000000, &public_key);
    assert!(!second.is_valid);
    assert!(second.errors.contains(&ValidationError::DuplicateTransaction));
    let stats = validator.get_validation_stats();
    assert_eq!(stats.total_validations, 2);
    assert_eq!(stats.successful_validations, 1);
    assert_eq!(stats.failed_validations, 1);
}

#[test]
fn low_fee_and_zero_amount_are_errors() {
    let mut validator = TransactionValidator::new(NetworkValidationConfig::default());
    let (secret, public_key) = keys(46);
    let from = Address::from_public_key(&public_key);
    let cheap = Transaction::new(from, Address([9u8; 32]), 5, 9_999, now_nanos(), &secret).unwrap();
    let r = validator.validate_transaction(&cheap, 10_00000000, &public_key);
    assert!(r.errors.contains(&ValidationError::InvalidFee));
    let minimum = Transaction::new(from, Address([9u8; 32]), 1_00000000, 10_000, now_nanos(), &secret).unwrap();
    let r = validator.validate_transaction(&minimum, 10_00000000, &public_key);
    assert!(!r.errors.contains(&ValidationError::InvalidFee), "{:?}", r.errors);
    assert!(r.is_valid, "{:?}", r.errors);
}

#[test]
fn disabled_rules_do_not_fire() {
    let mut validator = TransactionValidator::new(NetworkValidationConfig::default());
    let ids: Vec<String> = validator.get_validation_rules().iter().map(|r| r.id.clone()).collect();
    for id in &ids {
        assert!(validator.toggle_validation_rule(id, false));
    }
    assert!(!validator.toggle_validation_rule("no_such_rule", false));
    let (_secret, public_key) = keys(47);
    let tx = Transaction {
        id: 1,
        from: Address::from_public_key(&public_key),
        to: Address([9u8; 32]),
        amount: 1,
        fee: 1,
        message: None,
        timestamp: now_nanos(),
        signature: vec![],
        nonce: 0,
    };
    let r = validator.validate_transaction(&tx, 0, &public_key);
    assert!(r.is_valid);
}

#[test]
fn blacklisted_sender_is_blocked() {
    let mut validator = TransactionValidator::new(NetworkValidationConfig::default());
    let (secret, public_key) = keys(48);
    let from = Address::from_public_key(&public_key);
    validator.blacklist_address(&from);
    let tx = Transaction::new(from, Address([9u8; 32]), 5_00000000, 1_000_000, now_nanos(), &secret).unwrap();
    let r = validator.validate_transaction(&tx, 10_00000000, &public_key);
    assert!(!r.is_valid);
    assert!(r.errors.contains(&ValidationError::BlockedAddress));
}

#[test]
fn risk_score_stays_within_one_hundred() {
    let mut validator = TransactionValidator::new(NetworkValidationConfig::default());
    let (secret, public_key) = keys(48);
    let from = Address::from_public_key(&public_key);
    // A large self-send without a memo: at least 20 + 10 + 5 + 10.
    let tx = Transaction::new(from, from, 2_000_000_000_000, 10_000, now_nanos(), &secret).unwrap();
    let r = validator.validate_transaction(&tx, 3_000_000_000_000, &public_key);
    assert!(r.risk_score <= 100);
    assert!(r.risk_score >= 45);
    assert_eq!(r.is_valid, r.errors.is_empty());
    let again = validator.validate_transaction(&tx, 3_000_000_000_000, &public_key);
    assert_eq!(again.is_valid, again.errors.is_empty());
    assert_eq!(validator.get_validation_stats().total_validations, 2);
}
