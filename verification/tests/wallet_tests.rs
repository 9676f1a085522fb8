use paradigm_core::address::Address;
use paradigm_core::transaction::Transaction;
use paradigm_core::wallet::{MultiSigWallet, Wallet, WalletError};

#[test]
fn test_wallet_creation() {
    let wallet = Wallet::new();
    assert_eq!(wallet.get_balance(), 0);
    assert!(!wallet.get_address().to_string().is_empty());
}

#[test]
fn test_private_key_wallet() {
    let private_key = [1u8; 32];
    let wallet1 = Wallet::from_private_key(&private_key).unwrap();
    let wallet2 = Wallet::from_private_key(&private_key).unwrap();

    assert_eq!(wallet1.get_address(), wallet2.get_address());
}

#[test]
fn test_seed_phrase() {
    let words = Wallet::generate_seed_phrase();
    let wallet = Wallet::from_seed_phrase(&words).unwrap();
    assert!(!wallet.get_address().to_string().is_empty());
}

#[test]
fn wallet_test_transaction_creation() {
    let mut wallet = Wallet::new();
    wallet.update_balance(2000000000); // 20 PAR

    let to_wallet = Wallet::new();
    let transaction = wallet
        .create_transaction(*to_wallet.get_address(), 1000000000, 10000000)
        .unwrap();

    assert_eq!(transaction.amount, 1000000000);
    assert_eq!(transaction.fee, 10000000);
    assert_eq!(transaction.from, *wallet.get_address());
    assert_eq!(transaction.to, *to_wallet.get_address());
}

#[test]
fn test_signature_verification() {
    let wallet = Wallet::new();
    let message = b"test message";
    let signature = wallet.sign_message(message);

    assert!(wallet.verify_signature(message, &signature));
    assert!(!wallet.verify_signature(b"different message", &signature));
}

#[test]
fn address_is_the_public_key() {
    let secret = [5u8; 32];
    let wallet = Wallet::from_private_key(&secret).unwrap();
    let public = ed25519_dalek::SigningKey::from_bytes(&secret).verifying_key().to_bytes();
    assert_eq!(wallet.get_address().0, public);
    assert_eq!(wallet.export_public_key(), public);
    assert_eq!(wallet.export_private_key(), secret);
    assert_eq!(wallet.get_address().to_string(), hex::encode(public));
}

#[test]
fn seed_phrase_key_is_blake3_of_the_words() {
    let words = Wallet::generate_seed_phrase();
    assert_eq!(words.len(), 12);
    assert_eq!(words[0], "paradigm");
    assert_eq!(words[11], "future");
    let wallet = Wallet::from_seed_phrase(&words).unwrap();
    let mut hasher = blake3::Hasher::new();
    for w in &words {
        hasher.update(w.as_bytes());
    }
    assert_eq!(wallet.export_private_key(), *hasher.finalize().as_bytes());
}

#[test]
fn insufficient_balance_is_refused() {
    let mut wallet = Wallet::from_private_key(&[6u8; 32]).unwrap();
    wallet.update_balance(100);
    let r = wallet.create_transaction(Address([1u8; 32]), 95, 6);
    assert!(matches!(r, Err(WalletError::InsufficientBalance)));
    let ok = wallet.create_transaction(Address([1u8; 32]), 95, 5).unwrap();
    assert!(ok.verify_signature(&wallet.export_public_key()));
    assert!(ok.validate(&wallet.export_public_key()).is_ok());
}

#[test]
fn recording_transactions_moves_the_balance_and_stats() {
    let mut wallet = Wallet::from_private_key(&[7u8; 32]).unwrap();
    let me = *wallet.get_address();
    let other = Address([8u8; 32]);
    wallet.update_balance(1000);
    let incoming = Transaction::new(other, me, 500, 3, 1, &[8u8; 32]).unwrap();
    wallet.add_transaction(incoming);
    assert_eq!(wallet.get_balance(), 1500);
    let outgoing = Transaction::new(me, other, 200, 10, 2, &[7u8; 32]).unwrap();
    wallet.add_transaction(outgoing);
    assert_eq!(wallet.get_balance(), 1290);
    let big = Transaction::new(me, other, 5000, 10, 3, &[7u8; 32]).unwrap();
    wallet.add_transaction(big);
    assert_eq!(wallet.get_balance(), 0);
    let stats = wallet.get_stats();
    assert_eq!(stats.balance, 0);
    assert_eq!(stats.total_sent, 210 + 5010);
    assert_eq!(stats.total_received, 500);
    assert_eq!(stats.transaction_count, 3);
    assert_eq!(wallet.get_transaction_history().len(), 3);
}

#[test]
fn incoming_credit_saturates() {
    let mut wallet = Wallet::from_private_key(&[9u8; 32]).unwrap();
    let me = *wallet.get_address();
    wallet.update_balance(u64::MAX - 1);
    let incoming = Transaction::new(Address([1u8; 32]), me, 10, 1, 1, &[1u8; 32]).unwrap();
    wallet.add_transaction(incoming);
    assert_eq!(wallet.get_balance(), u64::MAX);
}

#[test]
fn multisig_requirements() {
    let signers = vec![[1u8; 32], [2u8; 32], [3u8; 32]];
    assert!(matches!(MultiSigWallet::new(0, signers.clone()), Err(WalletError::InvalidSignatureRequirements)));
    assert!(matches!(MultiSigWallet::new(4, signers.clone()), Err(WalletError::InvalidSignatureRequirements)));
    let mut w = MultiSigWallet::new(2, signers).unwrap();
    assert!(matches!(w.add_signature(7, vec![1, 2, 3]), Err(WalletError::TransactionNotFound)));
}
