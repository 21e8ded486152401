use dina::bridge_layerzero::{LayerZeroState, OftPayload, LZ_ARBITRUM, LZ_BASE, LZ_DINA, LZ_ETHEREUM, LZ_SOLANA};


fn owner() -> [u8; 32] {
    [1u8; 32]
}
fn endpoint() -> [u8; 32] {
    [10u8; 32]
}
fn usdc() -> [u8; 32] {
    [20u8; 32]
}
fn alice() -> [u8; 32] {
    [3u8; 32]
}
fn remote_base() -> [u8; 32] {
    [50u8; 32]
}

/// The payload as the bridge's callers serialize it.
fn payload_bytes(p: &OftPayload) -> Vec<u8> {
    let mut m = serde_json::Map::new();
    m.insert(
        "to".to_string(),
        serde_json::Value::Array(p.to.iter().map(|b| serde_json::Value::from(*b)).collect()),
    );
    m.insert("amount".to_string(), serde_json::Value::from(p.amount));
    m.insert("compose_msg".to_string(), serde_json::Value::Null);
    serde_json::to_vec(&serde_json::Value::Object(m)).unwrap()
}

/// The amount of a serialized payload.
fn payload_amount(bytes: &[u8]) -> u64 {
    let v: serde_json::Value = serde_json::from_slice(bytes).unwrap();
    v["amount"].as_u64().unwrap()
}

fn setup() -> LayerZeroState {
    let mut s = LayerZeroState::new(owner(), endpoint(), usdc());
    s.set_trusted_remote(owner(), LZ_BASE, remote_base());
    s.set_trusted_remote(owner(), LZ_ETHEREUM, [60u8; 32]);
    s
}

#[test]
fn lib_test_init_layerzero() {
    let s = setup();
    assert_eq!(s.local_chain_id, LZ_DINA);
    assert!(s.is_trusted_remote(LZ_BASE, &remote_base()));
}

#[test]
fn test_send() {
    let mut s = setup();
    let nonce = s.send(alice(), LZ_BASE, alice(), 1_000_000, None);
    assert_eq!(nonce, 1);
    assert_eq!(s.get_outbound_nonce(LZ_BASE), 1);
}

#[test]
fn test_send_increments_nonce() {
    let mut s = setup();
    s.send(alice(), LZ_BASE, alice(), 1_000_000, None);
    let nonce = s.send(alice(), LZ_BASE, alice(), 2_000_000, None);
    assert_eq!(nonce, 2);
}

#[test]
fn test_lz_receive() {
    let mut s = setup();
    let payload = OftPayload {
        to: alice(),
        amount: 500_000,
        compose_msg: None,
    };
    let amount = s.lz_receive(endpoint(), LZ_BASE, remote_base(), 1, payload.clone(), payload_bytes(&payload));
    assert_eq!(amount, 500_000);
    assert_eq!(s.get_inbound_nonce(LZ_BASE, &remote_base()), 1);
}

#[test]
fn test_out_of_order_nonce_stored_as_failed() {
    let mut s = setup();
    let payload = OftPayload {
        to: alice(),
        amount: 500_000,
        compose_msg: None,
    };
    // Send nonce 2 before nonce 1
    let amount = s.lz_receive(endpoint(), LZ_BASE, remote_base(), 2, payload.clone(), payload_bytes(&payload));
    assert_eq!(amount, 0);
    assert_eq!(s.failed_message_count(), 1);
}

#[test]
fn test_retry_message() {
    let mut s = setup();
    // First receive nonce 1
    let p1 = OftPayload {
        to: alice(),
        amount: 100_000,
        compose_msg: None,
    };
    s.lz_receive(endpoint(), LZ_BASE, remote_base(), 1, p1.clone(), payload_bytes(&p1));

    // Nonce 3 arrives before nonce 2 — fails
    let p3 = OftPayload {
        to: alice(),
        amount: 300_000,
        compose_msg: None,
    };
    s.lz_receive(endpoint(), LZ_BASE, remote_base(), 3, p3.clone(), payload_bytes(&p3));
    assert_eq!(s.failed_message_count(), 1);

    // Retry nonce 3 (after nonce 2 was presumably processed)
    let amount = payload_amount(&s.retry_message(owner(), LZ_BASE, remote_base(), 3));
    assert_eq!(amount, 300_000);
    assert_eq!(s.failed_message_count(), 0);
}

#[test]
fn lib_test_chain_id_constants() {
    assert_eq!(LZ_ETHEREUM, 30101);
    assert_eq!(LZ_ARBITRUM, 30110);
    assert_eq!(LZ_SOLANA, 30168);
    assert_eq!(LZ_BASE, 30184);
    assert_eq!(LZ_DINA, 30099);
}


#[test]
fn test_out_of_order_reason_text() {
    let mut s = setup();
    let payload = OftPayload { to: alice(), amount: 7, compose_msg: None };
    s.lz_receive(endpoint(), LZ_BASE, remote_base(), 12, payload.clone(), payload_bytes(&payload));
    assert_eq!(s.failed_messages[0].reason, "nonce mismatch: expected 1, got 12");
    assert_eq!(s.failed_messages[0].reason, format!("nonce mismatch: expected {}, got {}", 1, 12));
}

#[test]
fn test_replayed_nonce_is_not_minted() {
    let mut s = setup();
    let payload = OftPayload {
        to: alice(),
        amount: 500_000,
        compose_msg: None,
    };
    assert_eq!(s.lz_receive(endpoint(), LZ_BASE, remote_base(), 1, payload.clone(), payload_bytes(&payload)), 500_000);
    assert_eq!(s.lz_receive(endpoint(), LZ_BASE, remote_base(), 1, payload.clone(), payload_bytes(&payload)), 0);
    assert_eq!(s.failed_message_count(), 1);
    assert_eq!(s.get_inbound_nonce(LZ_BASE, &remote_base()), 1);
}
