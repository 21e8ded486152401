use dina::bridge_stargate::{LzTxParams, StargateRouterState, LZ_CHAIN_BASE, LZ_CHAIN_DINA, LZ_CHAIN_ETHEREUM};


fn owner() -> [u8; 32] {
    [1u8; 32]
}
fn alice() -> [u8; 32] {
    [3u8; 32]
}
fn bob() -> [u8; 32] {
    [4u8; 32]
}
fn usdc_token() -> [u8; 32] {
    [10u8; 32]
}

fn setup() -> StargateRouterState {
    let mut s = StargateRouterState::new(owner());
    s.create_pool(owner(), usdc_token(), 6, 6, "USDC".into(), "USDC".into());
    s.add_chain_path(owner(), 1, LZ_CHAIN_BASE, 1);
    s.add_chain_path(owner(), 1, LZ_CHAIN_ETHEREUM, 1);
    s
}

#[test]
fn lib_test_init_stargate() {
    let s = StargateRouterState::new(owner());
    assert_eq!(s.chain_id, LZ_CHAIN_DINA);
    assert!(s.pools.is_empty());
    assert!(!s.paused);
}

#[test]
fn lib_test_create_pool_stargate() {
    let mut s = StargateRouterState::new(owner());
    let id = s.create_pool(owner(), usdc_token(), 6, 6, "USDC".into(), "USDC".into());
    assert_eq!(id, 1);
    let pool = s.get_pool(1).unwrap();
    assert_eq!(pool.token, usdc_token());
    assert_eq!(pool.total_liquidity, 0);
    assert_eq!(pool.name, "USDC");
}

#[test]
fn test_add_liquidity() {
    let mut s = setup();
    let lp = s.add_liquidity(alice(), 1, 1_000_000);
    // First deposit: 1:1 minus MINIMUM_LIQUIDITY burned to zero address
    assert_eq!(lp, 1_000_000 - StargateRouterState::MINIMUM_LIQUIDITY);

    let pool = s.get_pool(1).unwrap();
    assert_eq!(pool.total_liquidity, 1_000_000);
    assert_eq!(pool.total_lp_tokens, 1_000_000);
    assert_eq!(
        s.lp_balance_of(1, &alice()),
        1_000_000 - StargateRouterState::MINIMUM_LIQUIDITY
    );
    // MINIMUM_LIQUIDITY is locked at the zero address
    assert_eq!(
        s.lp_balance_of(1, &[0u8; 32]),
        StargateRouterState::MINIMUM_LIQUIDITY
    );
}

#[test]
fn test_add_liquidity_proportional() {
    let mut s = setup();
    s.add_liquidity(alice(), 1, 1_000_000);
    let lp = s.add_liquidity(bob(), 1, 500_000);
    assert_eq!(lp, 500_000); // Proportional to pool

    assert_eq!(
        s.lp_balance_of(1, &alice()),
        1_000_000 - StargateRouterState::MINIMUM_LIQUIDITY
    );
    assert_eq!(s.lp_balance_of(1, &bob()), 500_000);
}

#[test]
fn lib_test_remove_liquidity_stargate() {
    let mut s = setup();
    let alice_lp = s.add_liquidity(alice(), 1, 1_000_000);
    let remove_amount = alice_lp / 2;
    let tokens = s.remove_liquidity(alice(), 1, remove_amount);
    // tokens returned proportional to share of total pool
    assert!(tokens > 0);

    let pool = s.get_pool(1).unwrap();
    assert_eq!(pool.total_liquidity, 1_000_000 - tokens);
    assert_eq!(s.lp_balance_of(1, &alice()), alice_lp - remove_amount);
}

#[test]
fn test_swap() {
    let mut s = setup();
    s.add_liquidity(alice(), 1, 10_000_000); // 10 USDC in pool

    let nonce = s.swap(
        bob(),
        LZ_CHAIN_BASE,
        1,
        1,
        bob(),
        1_000_000,
        990_000, // accept up to 1% slippage
        LzTxParams {
            dst_gas_for_call: 200_000,
            dst_native_amount: 0,
            dst_native_addr: vec![],
        },
        bob().to_vec(),
        vec![],
    );
    assert_eq!(nonce, 0);

    // Fee: 1_000_000 * 6 / 10_000 = 600
    let pool = s.get_pool(1).unwrap();
    assert_eq!(pool.total_liquidity, 10_000_000 - (1_000_000 - 600));
    assert!(pool.accumulated_fees > 0);
}

#[test]
fn lib_test_pause_unpause_stargate() {
    let mut s = setup();
    s.pause(owner());
    assert!(s.paused);
    s.unpause(owner());
    assert!(!s.paused);
}

#[test]
fn lib_test_ownership_transfer_stargate() {
    let mut s = StargateRouterState::new(owner());
    let new_owner = [99u8; 32];
    s.transfer_ownership(owner(), new_owner);
    assert_eq!(s.owner, new_owner);
}


#[test]
fn test_add_then_remove_returns_no_more_than_added() {
    let mut s = setup();
    s.add_liquidity(alice(), 1, 1_000_000);
    let lp = s.add_liquidity(bob(), 1, 333_333);
    let back = s.remove_liquidity(bob(), 1, lp);
    assert!(back <= 333_333);
    assert_eq!(back, 333_333);
    assert_eq!(s.lp_balance_of(1, &bob()), 0);
}
