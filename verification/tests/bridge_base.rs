use dina::bridge_base::BaseBridgeState;
use sha2::{Digest, Sha256};

use ed25519_dalek::{Signer, SigningKey};
use rand::rngs::OsRng;

fn owner() -> [u8; 32] {
    [1u8; 32]
}
fn usdc() -> [u8; 32] {
    [20u8; 32]
}
fn alice() -> [u8; 32] {
    [3u8; 32]
}
fn base_alice() -> [u8; 32] {
    [4u8; 32]
}

/// Generate a relayer keypair; the public key serves as the relayer address.
fn make_relayer_key() -> SigningKey {
    SigningKey::generate(&mut OsRng)
}

fn setup() -> (BaseBridgeState, SigningKey) {
    let relayer_key = make_relayer_key();
    let relayer_pubkey = relayer_key.verifying_key().to_bytes();
    let state = BaseBridgeState::new(owner(), relayer_pubkey, usdc());
    (state, relayer_key)
}

/// Compute a valid Ed25519 proof for a claim.
fn compute_proof(
    signing_key: &SigningKey,
    base_tx_hash: &[u8; 32],
    amount: u64,
    recipient: &[u8; 32],
) -> [u8; 64] {
    let mut input = Vec::new();
    input.extend_from_slice(base_tx_hash);
    input.extend_from_slice(&amount.to_le_bytes());
    input.extend_from_slice(recipient);
    let message_hash = Sha256::digest(&input);
    let sig = signing_key.sign(&message_hash);
    sig.to_bytes()
}

#[test]
fn lib_test_init_base() {
    let (s, relayer_key) = setup();
    assert_eq!(s.relayer, relayer_key.verifying_key().to_bytes());
    assert_eq!(s.usdc_token, usdc());
    assert_eq!(s.total_locked, 0);
    assert_eq!(s.fee_bps, 10);
}

#[test]
fn test_claim_from_base() {
    let (mut s, relayer_key) = setup();
    let relayer_pubkey = relayer_key.verifying_key().to_bytes();
    let tx_hash = [42u8; 32];
    let amount = 1_000_000u64; // 1 USDC
    let proof = compute_proof(&relayer_key, &tx_hash, amount, &alice());

    let minted = s.claim(relayer_pubkey, tx_hash, amount, alice(), proof);
    // Fee: 1_000_000 * 10 / 10_000 = 1_000
    assert_eq!(minted, 999_000);
    assert!(s.is_deposit_processed(&tx_hash));
    assert_eq!(s.total_locked, 1_000_000);
    assert_eq!(s.collected_fees, 1_000);
}

#[test]
fn test_withdraw_to_base() {
    let (mut s, relayer_key) = setup();
    let relayer_pubkey = relayer_key.verifying_key().to_bytes();
    // First deposit to have some minted supply
    let tx_hash = [42u8; 32];
    let amount = 10_000_000u64;
    let proof = compute_proof(&relayer_key, &tx_hash, amount, &alice());
    s.claim(relayer_pubkey, tx_hash, amount, alice(), proof);

    // Withdraw
    let id = s.withdraw(alice(), 5_000_000, base_alice(), 1000);
    assert_eq!(id, 1);
    assert_eq!(s.pending_withdrawal_count(), 1);

    // Relayer marks as processed
    s.mark_withdrawal_processed(relayer_pubkey, 1);
    assert_eq!(s.pending_withdrawal_count(), 0);
}

#[test]
fn test_set_fee() {
    let (mut s, _relayer_key) = setup();
    s.set_fee(owner(), 50); // 0.5%
    assert_eq!(s.fee_bps, 50);
}

#[test]
fn test_withdraw_fees() {
    let (mut s, relayer_key) = setup();
    let relayer_pubkey = relayer_key.verifying_key().to_bytes();
    let tx_hash = [42u8; 32];
    let amount = 1_000_000u64;
    let proof = compute_proof(&relayer_key, &tx_hash, amount, &alice());
    s.claim(relayer_pubkey, tx_hash, amount, alice(), proof);

    let fees = s.withdraw_fees(owner());
    assert_eq!(fees, 1_000);
    assert_eq!(s.collected_fees, 0);
}
