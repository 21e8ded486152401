use dina::bridge_cctp::{CctpMessage, CctpState, DOMAIN_ARBITRUM, DOMAIN_BASE, DOMAIN_DINA, DOMAIN_ETHEREUM, DOMAIN_SOLANA};

use ed25519_dalek::{Signer, SigningKey};
use rand::rngs::OsRng;

fn owner() -> [u8; 32] {
    [1u8; 32]
}
fn usdc_addr() -> [u8; 32] {
    [20u8; 32]
}
fn alice() -> [u8; 32] {
    [3u8; 32]
}
fn remote_messenger() -> [u8; 32] {
    [30u8; 32]
}

fn bytes_value(b: &[u8]) -> serde_json::Value {
    serde_json::Value::Array(b.iter().map(|x| serde_json::Value::from(*x)).collect())
}

/// A message serialized, field by field.
fn message_bytes(m: &CctpMessage) -> Vec<u8> {
    let mut o = serde_json::Map::new();
    o.insert("version".to_string(), serde_json::Value::from(m.version));
    o.insert("source_domain".to_string(), serde_json::Value::from(m.source_domain));
    o.insert("destination_domain".to_string(), serde_json::Value::from(m.destination_domain));
    o.insert("nonce".to_string(), serde_json::Value::from(m.nonce));
    o.insert("sender".to_string(), bytes_value(&m.sender));
    o.insert("recipient".to_string(), bytes_value(&m.recipient));
    o.insert("destination_caller".to_string(), bytes_value(&m.destination_caller));
    o.insert("burn_token".to_string(), bytes_value(&m.burn_token));
    o.insert("mint_recipient".to_string(), bytes_value(&m.mint_recipient));
    o.insert("amount".to_string(), serde_json::Value::from(m.amount));
    serde_json::to_vec(&serde_json::Value::Object(o)).unwrap()
}

/// Generate an attester keypair; the public key is stored in contract state.
fn make_attester_key() -> SigningKey {
    SigningKey::generate(&mut OsRng)
}

fn setup() -> (CctpState, SigningKey) {
    let attester_key = make_attester_key();
    let attester_pubkey = attester_key.verifying_key().to_bytes();
    let mut s = CctpState::new(owner(), attester_pubkey, usdc_addr());
    s.set_remote_token_messenger(owner(), DOMAIN_BASE, remote_messenger());
    s.set_remote_token_messenger(owner(), DOMAIN_ETHEREUM, remote_messenger());
    (s, attester_key)
}

/// Compute a valid Ed25519 attestation for a given message.
fn compute_attestation(message: &CctpMessage, attester_key: &SigningKey) -> [u8; 64] {
    let message_hash = CctpMessage::hash(&message_bytes(message));
    let sig = attester_key.sign(&message_hash);
    sig.to_bytes()
}

#[test]
fn lib_test_init_cctp() {
    let attester_key = make_attester_key();
    let attester_pubkey = attester_key.verifying_key().to_bytes();
    let s = CctpState::new(owner(), attester_pubkey, usdc_addr());
    assert_eq!(s.local_domain, DOMAIN_DINA);
    assert_eq!(s.next_nonce, 1);
    assert!(!s.paused);
}

#[test]
fn test_deposit_for_burn() {
    let (mut s, _attester_key) = setup();
    let nonce = s.deposit_for_burn(alice(), 1_000_000, DOMAIN_BASE, alice());
    assert_eq!(nonce, 1);
    assert_eq!(s.next_nonce, 2);
    assert_eq!(s.message_count(), 1);
}

#[test]
fn test_receive_message() {
    let (mut s, attester_key) = setup();
    let message = CctpMessage {
        version: 0,
        source_domain: DOMAIN_BASE,
        destination_domain: DOMAIN_DINA,
        nonce: 42,
        sender: alice(),
        recipient: alice(),
        destination_caller: [0u8; 32],
        burn_token: usdc_addr(),
        mint_recipient: alice(),
        amount: 500_000,
    };

    let attestation = compute_attestation(&message, &attester_key);
    let serialized = message_bytes(&message);
    let result = s.receive_message(message, attestation, &serialized);
    assert!(result);
    assert!(s.is_nonce_used(DOMAIN_BASE, 42));
}

#[test]
fn test_domain_constants() {
    assert_eq!(DOMAIN_ETHEREUM, 0);
    assert_eq!(DOMAIN_ARBITRUM, 3);
    assert_eq!(DOMAIN_SOLANA, 5);
    assert_eq!(DOMAIN_BASE, 6);
    assert_eq!(DOMAIN_DINA, 99);
}
