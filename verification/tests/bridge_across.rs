use dina::bridge_across::{
    AcrossSpokePoolState, MerkleProof, RelayData, CHAIN_ID_BASE, CHAIN_ID_DINA, CHAIN_ID_ETHEREUM,
};

fn owner() -> [u8; 32] {
    [1u8; 32]
}
fn relayer() -> [u8; 32] {
    [2u8; 32]
}
fn alice() -> [u8; 32] {
    [3u8; 32]
}
fn bob() -> [u8; 32] {
    [4u8; 32]
}
fn usdc_dina() -> [u8; 32] {
    [10u8; 32]
}
fn usdc_base() -> [u8; 32] {
    [11u8; 32]
}

fn setup() -> AcrossSpokePoolState {
    let mut s = AcrossSpokePoolState::new(owner());
    s.whitelist_relayer(owner(), relayer());
    s
}

#[test]
fn lib_test_init() {
    let s = AcrossSpokePoolState::new(owner());
    assert_eq!(s.chain_id, CHAIN_ID_DINA);
    assert_eq!(s.hub_pool_chain_id, CHAIN_ID_ETHEREUM);
    assert_eq!(s.deposit_nonce, 0);
    assert!(s.is_chain_supported(CHAIN_ID_BASE));
    assert!(s.is_chain_supported(CHAIN_ID_DINA));
}

#[test]
fn test_deposit() {
    let mut s = setup();
    let nonce = s.deposit(
        alice(), CHAIN_ID_BASE, bob(), usdc_dina(), usdc_base(),
        1_000_000, 997_000, 30, 1700000000, 1700003600, 0, vec![],
    );
    assert_eq!(nonce, 0);
    assert_eq!(s.deposit_nonce, 1);
    let deposit = s.get_deposit(0).unwrap();
    assert_eq!(deposit.depositor, alice());
    assert_eq!(deposit.destination_chain_id, CHAIN_ID_BASE);
    assert_eq!(deposit.recipient, bob());
    assert_eq!(deposit.input_amount, 1_000_000);
    assert_eq!(deposit.output_amount, 997_000);
    assert!(!deposit.filled);
}

#[test]
fn test_multiple_deposits_increment_nonce() {
    let mut s = setup();
    let n0 = s.deposit(
        alice(), CHAIN_ID_BASE, bob(), usdc_dina(), usdc_base(),
        1_000_000, 997_000, 30, 0, 3600, 0, vec![],
    );
    let n1 = s.deposit(
        alice(), CHAIN_ID_BASE, bob(), usdc_dina(), usdc_base(),
        2_000_000, 1_994_000, 30, 0, 3600, 0, vec![],
    );
    assert_eq!(n0, 0);
    assert_eq!(n1, 1);
    assert_eq!(s.deposit_nonce, 2);
    assert_eq!(s.pool_balances.get_or_zero(&usdc_dina()), 3_000_000);
}

#[test]
fn test_fill_relay() {
    let mut s = setup();
    s.fill_relay(
        relayer(), alice(), bob(), usdc_dina(), usdc_base(),
        1_000_000, 997_000, CHAIN_ID_ETHEREUM, CHAIN_ID_BASE, 0, 1700003600, vec![],
    );
    let fill = s.get_fill(CHAIN_ID_BASE, 0).unwrap();
    assert_eq!(fill.relayer, relayer());
    assert_eq!(fill.amount, 997_000);
}

#[test]
fn lib_test_pause_unpause() {
    let mut s = setup();
    s.pause(owner());
    assert!(s.paused);
    s.unpause(owner());
    assert!(!s.paused);
}

#[test]
fn lib_test_ownership_transfer() {
    let mut s = AcrossSpokePoolState::new(owner());
    let new_owner = [99u8; 32];
    s.transfer_ownership(owner(), new_owner);
    assert_eq!(s.owner, new_owner);
    s.pause(new_owner);
    assert!(s.paused);
}

#[test]
fn test_add_supported_chain() {
    let mut s = setup();
    assert!(!s.is_chain_supported(56));
    s.add_supported_chain(owner(), 56);
    assert!(s.is_chain_supported(56));
}

fn fold(bytes: &[u8]) -> [u8; 32] {
    let mut h = [0u8; 32];
    for (i, b) in bytes.iter().enumerate() {
        h[i % 32] ^= b;
    }
    h
}

#[test]
fn across_slow_relay_checks_proof_and_records_fill() {
    let mut s = setup();
    let json: Vec<u8> = (0u8..70).collect();
    let leaf = fold(&json);
    let sibling = [7u8; 32];
    let mut root = [0u8; 32];
    for i in 0..32 {
        root[i] = leaf[i] ^ sibling[i];
    }
    let proof = MerkleProof { proof: vec![sibling], leaf_index: 0, root };
    assert!(!s.slow_relay_valid(&proof, &json));
    s.publish_merkle_root(owner(), root);
    assert!(s.slow_relay_valid(&proof, &json));
    let bad = MerkleProof { proof: vec![[8u8; 32]], leaf_index: 0, root };
    assert!(!s.slow_relay_valid(&bad, &json));
    let data = RelayData {
        depositor: alice(),
        recipient: bob(),
        input_token: usdc_dina(),
        output_token: usdc_base(),
        input_amount: 100,
        output_amount: 90,
        origin_chain_id: CHAIN_ID_BASE,
        deposit_nonce: 3,
        fill_deadline: 0,
        message: vec![],
    };
    s.execute_slow_relay_leaf(data, proof, &json);
    let fill = s.get_fill(CHAIN_ID_BASE, 3).unwrap();
    assert_eq!(fill.amount, 90);
    assert_eq!(fill.relayer, [0u8; 32]);
}
