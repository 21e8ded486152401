use dina::bridge_wormhole::{Guardian, Vaa, VaaPayload, VaaSignature, TransferError, WormholeState, CHAIN_ARBITRUM, CHAIN_BASE, CHAIN_DINA, CHAIN_ETHEREUM, CHAIN_SOLANA};
use sha2::{Digest, Sha256};


fn owner() -> [u8; 32] {
    [1u8; 32]
}
fn usdc() -> [u8; 32] {
    [20u8; 32]
}
fn alice() -> [u8; 32] {
    [3u8; 32]
}

fn make_guardians(n: usize) -> Vec<Guardian> {
    (0..n)
        .map(|i| {
            let mut pubkey = [0u8; 32];
            pubkey[0] = 100 + i as u8;
            Guardian {
                index: i as u8,
                pubkey,
            }
        })
        .collect()
}

fn bytes_value(b: &[u8; 32]) -> serde_json::Value {
    serde_json::Value::Array(b.iter().map(|x| serde_json::Value::from(*x)).collect())
}

/// The body of a VAA (all but its version, guardian set and signatures), serialized.
fn body_bytes(vaa: &Vaa) -> Vec<u8> {
    let p = &vaa.payload;
    let mut payload = serde_json::Map::new();
    payload.insert("payload_type".to_string(), serde_json::Value::from(p.payload_type));
    payload.insert("amount".to_string(), serde_json::Value::from(p.amount));
    payload.insert("token_address".to_string(), bytes_value(&p.token_address));
    payload.insert("token_chain".to_string(), serde_json::Value::from(p.token_chain));
    payload.insert("recipient".to_string(), bytes_value(&p.recipient));
    payload.insert("recipient_chain".to_string(), serde_json::Value::from(p.recipient_chain));
    payload.insert("sender".to_string(), bytes_value(&p.sender));
    let mut body = serde_json::Map::new();
    body.insert("timestamp".to_string(), serde_json::Value::from(vaa.timestamp));
    body.insert("nonce".to_string(), serde_json::Value::from(vaa.nonce));
    body.insert("emitter_chain".to_string(), serde_json::Value::from(vaa.emitter_chain));
    body.insert("emitter_address".to_string(), bytes_value(&vaa.emitter_address));
    body.insert("sequence".to_string(), serde_json::Value::from(vaa.sequence));
    body.insert("consistency_level".to_string(), serde_json::Value::from(vaa.consistency_level));
    body.insert("payload".to_string(), serde_json::Value::Object(payload));
    serde_json::to_vec(&serde_json::Value::Object(body)).unwrap()
}

fn setup() -> WormholeState {
    WormholeState::new(owner(), make_guardians(3), usdc())
}

/// Create valid signatures for a VAA body hash using the given guardians.
fn sign_vaa(body_hash: &[u8; 32], guardians: &[Guardian], count: usize) -> Vec<VaaSignature> {
    guardians
        .iter()
        .take(count)
        .map(|g| {
            let mut input = Vec::new();
            input.extend_from_slice(body_hash);
            input.extend_from_slice(&g.pubkey);
            let digest = Sha256::digest(&input);
            let mut sig = [0u8; 32];
            sig.copy_from_slice(&digest);
            VaaSignature {
                guardian_index: g.index,
                signature: sig,
            }
        })
        .collect()
}

#[test]
fn lib_test_init_wormhole() {
    let s = setup();
    assert_eq!(s.wormhole_chain_id, CHAIN_DINA);
    assert_eq!(s.guardian_set.guardians.len(), 3);
    assert_eq!(s.guardian_set.quorum, 3); // 3*2/3+1 = 3
    assert_eq!(s.next_sequence, 1);
}

#[test]
fn test_send_tokens() {
    let mut s = setup();
    let seq = s.send_tokens(alice(), 1_000_000, CHAIN_BASE, alice());
    assert_eq!(seq, 1);
    assert_eq!(s.transfer_count(), 1);
    assert_eq!(s.next_sequence, 2);
}

#[test]
fn test_complete_transfer() {
    let mut s = setup();
    let payload = VaaPayload {
        payload_type: 1,
        amount: 500_000,
        token_address: usdc(),
        token_chain: CHAIN_BASE,
        recipient: alice(),
        recipient_chain: CHAIN_DINA,
        sender: alice(),
    };

    let mut vaa = Vaa {
        version: 1,
        guardian_set_index: 0,
        timestamp: 1000,
        nonce: 1,
        emitter_chain: CHAIN_BASE,
        emitter_address: [50u8; 32],
        sequence: 1,
        consistency_level: 1,
        payload,
        signatures: vec![],
    };

    let body = body_bytes(&vaa);
    let body_hash = Vaa::body_hash(&body);
    vaa.signatures = sign_vaa(&body_hash, &s.guardian_set.guardians, 3);

    let amount = s.complete_transfer(vaa, &body);
    assert_eq!(amount, 500_000);
}

#[test]
fn lib_test_chain_id_constants_wormhole() {
    assert_eq!(CHAIN_SOLANA, 1);
    assert_eq!(CHAIN_ETHEREUM, 2);
    assert_eq!(CHAIN_ARBITRUM, 23);
    assert_eq!(CHAIN_BASE, 30);
    assert_eq!(CHAIN_DINA, 99);
}

#[test]
fn test_vaa_taken_in_once() {
    let mut s = setup();
    let payload = VaaPayload {
        payload_type: 1,
        amount: 700_000,
        token_address: usdc(),
        token_chain: CHAIN_BASE,
        recipient: alice(),
        recipient_chain: CHAIN_DINA,
        sender: alice(),
    };
    let mut vaa = Vaa {
        version: 1,
        guardian_set_index: 0,
        timestamp: 2000,
        nonce: 7,
        emitter_chain: CHAIN_BASE,
        emitter_address: [50u8; 32],
        sequence: 9,
        consistency_level: 1,
        payload,
        signatures: vec![],
    };
    let body = body_bytes(&vaa);
    let body_hash = Vaa::body_hash(&body);
    vaa.signatures = sign_vaa(&body_hash, &s.guardian_set.guardians, 3);
    assert!(!s.is_vaa_consumed(&body_hash));
    assert_eq!(s.try_complete_transfer(vaa.clone(), &body), Ok(700_000));
    assert!(s.is_vaa_consumed(&body_hash));
    assert_eq!(s.try_complete_transfer(vaa, &body), Err(TransferError::AlreadyConsumed));
}
