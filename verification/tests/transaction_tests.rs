use paradigm_core::address::Address;
use paradigm_core::transaction::{Transaction, TransactionError, TransactionPool};

fn public_key_of(secret: &[u8; 32]) -> [u8; 32] {
    ed25519_dalek::SigningKey::from_bytes(secret).verifying_key().to_bytes()
}

fn now_nanos() -> i64 {
    chrono::Utc::now().timestamp_nanos_opt().unwrap()
}

#[test]
fn transaction_test_transaction_creation() {
    let secret = [11u8; 32];
    let public = public_key_of(&secret);
    let from = Address::from_public_key(&public);
    let to = Address::from_public_key(&public);

    let transaction = Transaction::new(from, to, 1000000000, 10000000, now_nanos(), &secret).unwrap();

    assert_eq!(transaction.amount, 1000000000);
    assert_eq!(transaction.fee, 10000000);
    assert!(!transaction.signature.is_empty());
}

#[test]
fn test_transaction_verification() {
    let secret = [12u8; 32];
    let public = public_key_of(&secret);
    let from = Address::from_public_key(&public);
    let to = Address::from_public_key(&public);

    let transaction = Transaction::new(from, to, 1000000000, 10000000, now_nanos(), &secret).unwrap();

    assert!(transaction.verify_signature(&public));
    assert!(transaction.validate(&public).is_ok());
}

#[test]
fn transaction_test_transaction_pool() {
    let mut pool = TransactionPool::new();
    let secret = [13u8; 32];
    let public = public_key_of(&secret);
    let from = Address::from_public_key(&public);
    let to = Address::from_public_key(&public);

    let transaction = Transaction::new(from, to, 1000000000, 10000000, now_nanos(), &secret).unwrap();
    let id = transaction.id;

    pool.add_transaction(transaction.duplicate()).unwrap();
    assert_eq!(pool.size(), 1);

    let transactions = pool.get_transactions_by_address(&from);
    assert_eq!(transactions.len(), 1);
    assert_eq!(transactions[0].id, id);
}

#[test]
fn signature_is_sixty_four_bytes_and_nonce_is_timestamp() {
    let secret = [14u8; 32];
    let public = public_key_of(&secret);
    let from = Address::from_public_key(&public);
    let to = Address([2u8; 32]);
    let tx = Transaction::new(from, to, 5, 1, 123_456_789, &secret).unwrap();
    assert_eq!(tx.signature.len(), 64);
    assert_eq!(tx.nonce, 123_456_789);
    assert_eq!(tx.timestamp, 123_456_789);
    assert_eq!(tx.from, from);
    assert_eq!(tx.to, to);
}

#[test]
fn signing_data_is_the_blake3_of_the_fields() {
    let secret = [15u8; 32];
    let from = Address([3u8; 32]);
    let to = Address([4u8; 32]);
    let tx = Transaction::new(from, to, 7, 2, 99, &secret).unwrap();
    let mut preimage = Vec::new();
    preimage.extend_from_slice(&tx.id.to_be_bytes());
    preimage.extend_from_slice(&from.0);
    preimage.extend_from_slice(&to.0);
    preimage.extend_from_slice(&7u64.to_le_bytes());
    preimage.extend_from_slice(&2u64.to_le_bytes());
    preimage.extend_from_slice(&99u64.to_le_bytes());
    preimage.extend_from_slice(&99u64.to_le_bytes());
    let expected = blake3::hash(&preimage);
    assert_eq!(tx.get_signing_data(), expected.as_bytes().to_vec());
}

#[test]
fn signature_does_not_verify_under_another_key() {
    let secret = [16u8; 32];
    let other = public_key_of(&[17u8; 32]);
    let tx = Transaction::new(Address([1u8; 32]), Address([2u8; 32]), 10, 1, 5, &secret).unwrap();
    assert!(!tx.verify_signature(&other));
    assert_eq!(tx.validate(&other), Err(TransactionError::InvalidSignature));
}

#[test]
fn validation_rejects_zero_amount_then_zero_fee() {
    let secret = [18u8; 32];
    let public = public_key_of(&secret);
    let zero_amount = Transaction::new(Address([1u8; 32]), Address([2u8; 32]), 0, 0, 5, &secret).unwrap();
    assert_eq!(zero_amount.validate_at(&public, 10), Err(TransactionError::ZeroAmount));
    let zero_fee = Transaction::new(Address([1u8; 32]), Address([2u8; 32]), 1, 0, 5, &secret).unwrap();
    assert_eq!(zero_fee.validate_at(&public, 10), Err(TransactionError::ZeroFee));
}

#[test]
fn validation_rejects_timestamps_more_than_ten_minutes_ahead() {
    let secret = [19u8; 32];
    let public = public_key_of(&secret);
    let now: i64 = 1_000_000_000_000;
    let ahead = Transaction::new(Address([1u8; 32]), Address([2u8; 32]), 1, 1, now + 600_000_000_001, &secret).unwrap();
    assert_eq!(ahead.validate_at(&public, now), Err(TransactionError::FutureTimestamp));
    let edge = Transaction::new(Address([1u8; 32]), Address([2u8; 32]), 1, 1, now + 600_000_000_000, &secret).unwrap();
    assert_eq!(edge.validate_at(&public, now), Ok(()));
}

#[test]
fn messages_must_be_short_printable_ascii() {
    let secret = [20u8; 32];
    let long = Transaction::new_with_message(
        Address([1u8; 32]),
        Address([2u8; 32]),
        1,
        1,
        5,
        &secret,
        Some("eleven char".to_string()),
    );
    assert!(matches!(long, Err(TransactionError::MessageTooLong)));
    let unprintable = Transaction::new_with_message(
        Address([1u8; 32]),
        Address([2u8; 32]),
        1,
        1,
        5,
        &secret,
        Some("tab\there".to_string()),
    );
    assert!(matches!(unprintable, Err(TransactionError::NonPrintableMessage)));
    let fine = Transaction::new_with_message(
        Address([1u8; 32]),
        Address([2u8; 32]),
        1,
        1,
        5,
        &secret,
        Some("hello".to_string()),
    )
    .unwrap();
    assert_eq!(fine.message, Some("hello".to_string()));
    assert!(fine.verify_signature(&public_key_of(&secret)));
}

#[test]
fn hash_covers_the_signature() {
    let secret = [21u8; 32];
    let tx = Transaction::new(Address([1u8; 32]), Address([2u8; 32]), 1, 1, 5, &secret).unwrap();
    let mut data = tx.get_signing_data();
    data.extend_from_slice(&tx.signature);
    assert_eq!(tx.hash(), blake3::hash(&data).as_bytes().to_vec());
}

#[test]
fn pool_refuses_a_duplicate_id_and_removes_by_id() {
    let secret = [22u8; 32];
    let from = Address([9u8; 32]);
    let tx = Transaction::new(from, Address([2u8; 32]), 1, 1, 5, &secret).unwrap();
    let id = tx.id;
    let mut pool = TransactionPool::new();
    assert_eq!(pool.add_transaction(tx.duplicate()), Ok(()));
    assert_eq!(pool.add_transaction(tx.duplicate()), Err(TransactionError::AlreadyInPool));
    assert_eq!(pool.size(), 1);
    let removed = pool.remove_transaction(id).unwrap();
    assert_eq!(removed.id, id);
    assert_eq!(pool.size(), 0);
    assert!(pool.get_transactions_by_address(&from).is_empty());
    assert!(pool.remove_transaction(id).is_none());
}

#[test]
fn pool_lists_in_arrival_order_and_clears() {
    let secret = [23u8; 32];
    let mut pool = TransactionPool::new();
    let a = Transaction::new(Address([1u8; 32]), Address([2u8; 32]), 1, 1, 5, &secret).unwrap();
    let b = Transaction::new(Address([1u8; 32]), Address([3u8; 32]), 2, 1, 6, &secret).unwrap();
    let (ida, idb) = (a.id, b.id);
    pool.add_transaction(a).unwrap();
    pool.add_transaction(b).unwrap();
    let all: Vec<u128> = pool.get_all_transactions().iter().map(|t| t.id).collect();
    assert_eq!(all, vec![ida, idb]);
    let mine: Vec<u128> = pool.get_transactions_by_address(&Address([1u8; 32])).iter().map(|t| t.id).collect();
    assert_eq!(mine, vec![ida, idb]);
    pool.clear();
    assert_eq!(pool.size(), 0);
}

#[test]
fn transaction_ids_are_version_four_uuids() {
    let secret = [11u8; 32];
    let tx = paradigm_core::transaction::Transaction::new(
        paradigm_core::address::Address([1u8; 32]),
        paradigm_core::address::Address([2u8; 32]),
        100,
        10_000,
        1_000,
        &secret,
    )
    .unwrap();
    assert_eq!(tx.id & 0xF000_C000_0000_0000_0000u128, 0x4000_8000_0000_0000_0000u128);
    assert_eq!(uuid::Uuid::from_u128(tx.id).get_version_num(), 4);
}
