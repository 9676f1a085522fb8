use paradigm_core::address::{decode_hex, encode_hex, HexError};
use paradigm_core::wallet_manager::{WalletError, WalletFile, WalletManager};

#[test]
fn first_address_becomes_the_default() {
    let mut file = WalletFile::new();
    assert!(file.get_default_address().is_none());
    let a = file.add_address("main").unwrap();
    let b = file.add_address("spare").unwrap();
    assert_ne!(a, b);
    assert_eq!(file.get_default_address().unwrap().address, a);
    let entry = file.get_address(&a).unwrap();
    assert_eq!(entry.label, "main");
    assert_eq!(entry.balance, 0);
    assert_eq!(file.list_addresses().len(), 2);
}

#[test]
fn address_is_hex_of_the_public_key() {
    let mut file = WalletFile::new();
    let a = file.add_address("main").unwrap();
    let key_hex = file.export_private_key(&a).unwrap();
    let key: [u8; 32] = decode_hex(&key_hex).unwrap().try_into().unwrap();
    let public = ed25519_dalek::SigningKey::from_bytes(&key).verifying_key().to_bytes();
    assert_eq!(a, hex::encode(public));
}

#[test]
fn set_default_needs_a_known_address() {
    let mut file = WalletFile::new();
    let a = file.add_address("a").unwrap();
    let b = file.add_address("b").unwrap();
    assert!(matches!(file.set_default_address("nowhere"), Err(WalletError::AddressNotFound)));
    file.set_default_address(&b).unwrap();
    assert_eq!(file.get_default_address().unwrap().address, b);
    assert_ne!(a, b);
}

#[test]
fn balance_updates_add_up() {
    let mut file = WalletFile::new();
    let a = file.add_address("a").unwrap();
    file.update_balance(&a, 40).unwrap();
    file.update_balance(&a, 2).unwrap();
    let entry = file.get_address(&a).unwrap();
    assert_eq!(entry.balance, 42);
    assert_eq!(entry.total_earned, 42);
    assert_eq!(entry.tasks_completed, 2);
    assert!(matches!(file.update_balance("nowhere", 1), Err(WalletError::AddressNotFound)));
}

#[test]
fn import_then_export_gives_back_the_key() {
    let key = [7u8; 32];
    let key_hex = hex::encode(key);
    let mut manager = WalletManager::new("wallet.json".to_string(), WalletFile::new());
    let address = manager.import_key(&key_hex, "imported").unwrap();
    let public = ed25519_dalek::SigningKey::from_bytes(&key).verifying_key().to_bytes();
    assert_eq!(address, hex::encode(public));
    assert_eq!(manager.export_private_key(&address).unwrap(), key_hex);
    assert_eq!(manager.get_address_info(&address).unwrap().label, "imported");
}

#[test]
fn bad_imports_are_refused() {
    let mut file = WalletFile::new();
    assert!(matches!(file.import_private_key("zz", "x"), Err(WalletError::InvalidHex(_))));
    assert!(matches!(file.import_private_key("abc", "x"), Err(WalletError::InvalidHex(HexError::OddLength))));
    assert!(matches!(file.import_private_key("abcd", "x"), Err(WalletError::InvalidKeyLength)));
    assert!(file.list_addresses().is_empty());
}

#[test]
fn get_or_create_prefers_hint_then_default() {
    let mut manager = WalletManager::new("w.json".to_string(), WalletFile::new());
    let first = manager.get_or_create_address(None, "first").unwrap();
    let again = manager.get_or_create_address(None, "second").unwrap();
    assert_eq!(first, again);
    let other = manager.add_address("other").unwrap();
    let hinted = manager.get_or_create_address(Some(other.clone()), "x").unwrap();
    assert_eq!(hinted, other);
    assert_eq!(manager.get_default_address(), Some(first));
    assert_eq!(manager.export_keys().len(), 2);
}

#[test]
fn hex_round_trip() {
    let bytes = vec![0u8, 1, 127, 128, 254, 255];
    let text = encode_hex(&bytes);
    assert_eq!(text, "00017f80feff");
    assert_eq!(decode_hex(&text).unwrap(), bytes);
    assert_eq!(decode_hex("0G"), Err(HexError::InvalidHexCharacter { byte: b'G', index: 1 }));
    assert_eq!(decode_hex("ABcd").unwrap(), vec![0xab, 0xcd]);
}
