use dina::wallet::{WalletError, WalletManager};
use ed25519_dalek::SigningKey;
use sha2::{Digest, Sha256};
use std::path::PathBuf;

fn secret() -> [u8; 32] {
    [7u8; 32]
}

fn public_hex(secret: &[u8; 32]) -> String {
    hex::encode(SigningKey::from_bytes(secret).verifying_key().as_bytes())
}

#[test]
fn test_password_key_is_sha256_of_prefixed_password() {
    let mut hasher = Sha256::new();
    hasher.update(b"dina-wallet-encryption:");
    hasher.update("hunter2".as_bytes());
    let expected: [u8; 32] = hasher.finalize().into();
    assert_eq!(WalletManager::derive_password_key("hunter2"), expected);
    assert_ne!(WalletManager::derive_password_key("hunter2"), WalletManager::derive_password_key("hunter3"));
}

#[test]
fn test_xor_cipher_twice_gives_data_back() {
    let key = WalletManager::derive_password_key("pw");
    let data: Vec<u8> = (0..40u8).collect();
    let enc = WalletManager::xor_cipher(&data, &key);
    assert_ne!(enc, data);
    assert_eq!(enc[33], data[33] ^ key[1]);
    assert_eq!(WalletManager::xor_cipher(&enc, &key), data);
}

#[test]
fn test_unlock_with_right_and_wrong_password() {
    let s = secret();
    let key = WalletManager::derive_password_key("right");
    let encrypted = WalletManager::xor_cipher(&s, &key);
    let pk_hex = public_hex(&s);
    let (got_secret, got_public) = WalletManager::unlock_key(&encrypted, "right", &pk_hex).unwrap();
    assert_eq!(got_secret, s);
    assert_eq!(hex::encode(got_public), pk_hex);
    assert_eq!(WalletManager::unlock_key(&encrypted, "wrong", &pk_hex), Err(WalletError::IncorrectPassword));
    assert_eq!(WalletManager::unlock_key(&encrypted[..31], "right", &pk_hex), Err(WalletError::WrongKeyLength));
}

#[test]
fn test_parse_private_key() {
    let s = secret();
    let text = hex::encode(s);
    assert_eq!(WalletManager::parse_private_key(&text), Ok(s));
    assert_eq!(WalletManager::parse_private_key(&format!("0x{}", text.to_uppercase())), Ok(s));
    assert_eq!(WalletManager::parse_private_key("0xzz"), Err(WalletError::InvalidHex));
    assert_eq!(WalletManager::parse_private_key("abc"), Err(WalletError::InvalidHex));
    assert_eq!(WalletManager::parse_private_key("abcd"), Err(WalletError::WrongHexKeyLength(2)));
}

#[test]
fn test_wallet_paths() {
    let m = WalletManager::new(PathBuf::from("/tmp/wallets"));
    assert_eq!(m.wallet_dir(), &PathBuf::from("/tmp/wallets"));
    assert_eq!(m.wallet_path("alice"), PathBuf::from("/tmp/wallets/alice.json"));
    assert_eq!(m.default_file_path(), PathBuf::from("/tmp/wallets/_default"));
}

#[test]
fn test_sealed_wallet_unlocks_with_its_password() {
    let s = secret();
    let w = WalletManager::seal_wallet("alice", "pw", &s, "dina1alice".to_string(), "2024-01-01T00:00:00Z".to_string());
    assert_eq!(w.name, "alice");
    assert_eq!(w.address, "dina1alice");
    assert_eq!(w.created_at, "2024-01-01T00:00:00Z");
    assert_eq!(w.pubkey_hex, public_hex(&s));
    assert_ne!(w.encrypted_key, s.to_vec());
    let (got, _) = WalletManager::unlock_key(&w.encrypted_key, "pw", &w.pubkey_hex).unwrap();
    assert_eq!(got, s);
    assert_eq!(WalletManager::unlock_key(&w.encrypted_key, "other", &w.pubkey_hex), Err(WalletError::IncorrectPassword));
}

#[test]
fn test_wallet_file_name() {
    assert_eq!(WalletManager::wallet_file_name("alice"), "alice.json");
    assert_eq!(WalletManager::wallet_file_name(""), ".json");
}
