use dina::bridge_axelar::AxelarState;

use ed25519_dalek::{Signer, SigningKey};

fn owner() -> [u8; 32] {
    [1u8; 32]
}
fn its() -> [u8; 32] {
    [11u8; 32]
}
fn usdc() -> [u8; 32] {
    [20u8; 32]
}
fn alice() -> [u8; 32] {
    [3u8; 32]
}

/// Returns (gateway_address, gateway_pubkey, signing_key).
fn gateway_keypair() -> ([u8; 32], [u8; 32], SigningKey) {
    let signing_key = SigningKey::from_bytes(&[10u8; 32]);
    let pubkey = signing_key.verifying_key().to_bytes();
    // Use the pubkey bytes as the gateway "address" for simplicity in tests.
    let address = [10u8; 32];
    (address, pubkey, signing_key)
}

fn sign_execute(
    signing_key: &SigningKey,
    command_id: &[u8; 32],
    source_chain: &str,
    source_address: &str,
    payload: &[u8],
) -> [u8; 64] {
    let hash =
        AxelarState::compute_execute_hash(command_id, source_chain, source_address, payload);
    let sig = signing_key.sign(&hash);
    sig.to_bytes()
}

fn sign_execute_with_token(
    signing_key: &SigningKey,
    command_id: &[u8; 32],
    source_chain: &str,
    source_address: &str,
    payload: &[u8],
    token_symbol: &str,
    amount: u64,
) -> [u8; 64] {
    let hash = AxelarState::compute_execute_with_token_hash(
        command_id,
        source_chain,
        source_address,
        payload,
        token_symbol,
        amount,
    );
    let sig = signing_key.sign(&hash);
    sig.to_bytes()
}

fn setup() -> (AxelarState, SigningKey) {
    let (gw_addr, gw_pubkey, gw_key) = gateway_keypair();
    let mut s = AxelarState::new(owner(), gw_addr, gw_pubkey, its(), usdc());
    s.set_trusted_source(owner(), "ethereum".to_string(), "0xABC".to_string());
    s.set_trusted_source(owner(), "base".to_string(), "0xDEF".to_string());
    (s, gw_key)
}

#[test]
fn lib_test_init_axelar() {
    let (s, _) = setup();
    assert_eq!(s.chain_name, "dina");
    assert!(s.is_chain_trusted("ethereum"));
    assert!(s.is_chain_trusted("base"));
    assert!(s.is_token_registered("USDC"));
}

#[test]
fn test_send_to_chain() {
    let (mut s, _) = setup();
    s.send_to_chain(
        alice(),
        "ethereum".to_string(),
        "0x1234".to_string(),
        1_000_000,
    );
    assert_eq!(s.outbound_count(), 1);
}

#[test]
fn test_execute() {
    let (mut s, gw_key) = setup();
    let (gw_addr, _, _) = gateway_keypair();
    let cmd_id = [42u8; 32];
    let payload = vec![1, 2, 3, 4];
    let sig = sign_execute(&gw_key, &cmd_id, "ethereum", "0xABC", &payload);
    s.execute(
        gw_addr,
        cmd_id,
        "ethereum".to_string(),
        "0xABC".to_string(),
        payload,
        sig,
    );
    assert!(s.is_command_processed(&cmd_id));
    assert_eq!(s.processed_command_count(), 1);
}

#[test]
fn test_execute_with_token() {
    let (mut s, gw_key) = setup();
    let (gw_addr, _, _) = gateway_keypair();
    let cmd_id = [43u8; 32];
    let payload = vec![5, 6, 7];
    let sig = sign_execute_with_token(
        &gw_key, &cmd_id, "base", "0xDEF", &payload, "USDC", 2_000_000,
    );
    s.execute_with_token(
        gw_addr,
        cmd_id,
        "base".to_string(),
        "0xDEF".to_string(),
        payload,
        "USDC".to_string(),
        2_000_000,
        sig,
    );
    assert!(s.is_command_processed(&cmd_id));
}

#[test]
fn test_register_token() {
    let (mut s, _) = setup();
    s.register_token(owner(), "WETH".to_string(), [99u8; 32]);
    assert!(s.is_token_registered("WETH"));
}

