use dina::dex_swap::{isqrt, DexEvent, DexState};


fn setup() -> DexState {
    DexState::new("owner".to_string())
}

// 1. Create pool
#[test]
fn lib_test_create_pool() {
    let mut dex = setup();
    let evt = dex.create_pool("USDC", "ETH");
    assert!(matches!(evt, DexEvent::PoolCreated { pool_id: 1, .. }));
    assert_eq!(dex.pool_count(), 1);
    assert_eq!(dex.find_pool("ETH", "USDC"), Some(1));
}

// 2. Cannot create duplicate pool
#[test]
fn test_add_first_liquidity() {
    let mut dex = setup();
    dex.create_pool("USDC", "ETH");
    let evt = dex.add_liquidity(1, "alice", 10_000, 5_000, 0);
    if let DexEvent::LiquidityAdded { lp_tokens, .. } = &evt {
        // sqrt(10000 * 5000) = sqrt(50_000_000) ≈ 7071
        assert_eq!(*lp_tokens, isqrt(10_000u128 * 5_000));
    } else {
        panic!("expected LiquidityAdded");
    }
    let pool = dex.get_pool(1).unwrap();
    assert_eq!(pool.reserve_a, 10_000);
    assert_eq!(pool.reserve_b, 5_000);
}

// 4. Add subsequent liquidity (proportional)
#[test]
fn test_add_subsequent_liquidity() {
    let mut dex = setup();
    dex.create_pool("USDC", "ETH");
    dex.add_liquidity(1, "alice", 10_000, 5_000, 0);

    let evt = dex.add_liquidity(1, "bob", 2_000, 1_000, 0);
    if let DexEvent::LiquidityAdded { lp_tokens, .. } = &evt {
        assert!(*lp_tokens > 0);
    } else {
        panic!("expected LiquidityAdded");
    }
    let pool = dex.get_pool(1).unwrap();
    assert_eq!(pool.reserve_a, 12_000);
    assert_eq!(pool.reserve_b, 6_000);
}

// 5. Swap exact in (constant product)
#[test]
fn test_swap_exact_in() {
    let mut dex = setup();
    dex.create_pool("USDC", "ETH");
    dex.add_liquidity(1, "alice", 100_000, 50_000, 0);

    let pool_before = dex.get_pool(1).unwrap().clone();
    let k_before = pool_before.reserve_a as u128 * pool_before.reserve_b as u128;

    let evt = dex.swap_exact_in(1, "bob", "USDC", 1_000, 0);
    if let DexEvent::Swap { output_amount, .. } = &evt {
        assert!(*output_amount > 0);
        // Pool is ordered (ETH, USDC) with reserves (100k, 50k).
        // Swapping 1000 USDC in: reserve_in=50k, reserve_out=100k → ~1960 ETH out.
        // Output must be less than ideal 2000 (due to slippage; 0% fee-free).
        assert!(*output_amount < 2_000);
    } else {
        panic!("expected Swap");
    }

    // k must not decrease (fees make it grow)
    let pool_after = dex.get_pool(1).unwrap();
    let k_after = pool_after.reserve_a as u128 * pool_after.reserve_b as u128;
    assert!(k_after >= k_before, "constant product must not decrease");
}

// 6. Swap exact out
#[test]
fn test_swap_exact_out() {
    let mut dex = setup();
    dex.create_pool("USDC", "ETH");
    dex.add_liquidity(1, "alice", 100_000, 50_000, 0);

    let evt = dex.swap_exact_out(1, "bob", "ETH", 490, 10_000);
    if let DexEvent::Swap {
        input_amount,
        output_amount,
        ..
    } = &evt
    {
        assert_eq!(*output_amount, 490);
        assert!(*input_amount > 0);
        assert!(*input_amount <= 10_000);
    } else {
        panic!("expected Swap");
    }
}

// 7. Remove liquidity
#[test]
fn lib_test_remove_liquidity() {
    let mut dex = setup();
    dex.create_pool("USDC", "ETH");
    dex.add_liquidity(1, "alice", 10_000, 5_000, 0);

    let pool = dex.get_pool(1).unwrap();
    let alice_lp = pool.lp_balances.get(&"alice".to_string()).copied().unwrap();

    // Remove half
    let half = alice_lp / 2;
    let evt = dex.remove_liquidity(1, "alice", half, 0, 0);
    if let DexEvent::LiquidityRemoved {
        amount_a,
        amount_b,
        ..
    } = &evt
    {
        assert!(*amount_a > 0);
        assert!(*amount_b > 0);
    } else {
        panic!("expected LiquidityRemoved");
    }

    let pool = dex.get_pool(1).unwrap();
    assert!(pool.reserve_a > 0);
    assert!(pool.reserve_b > 0);
}

// 8. Slippage protection — revert on min_output
#[test]
fn test_fee_calculation() {
    let mut dex = setup();
    dex.create_pool("USDC", "ETH");
    dex.add_liquidity(1, "alice", 1_000_000, 500_000, 0);

    let quote = dex.get_quote(1, "USDC", 10_000);
    // Fee = 10_000 * 0 / 10_000 = 0 (fee-free)
    assert_eq!(quote.fee_amount, 0);
    assert!(quote.output_amount > 0);
    assert!(quote.price_impact_bps > 0);
}

// 10. Multi-hop swap route
#[test]
fn test_multi_hop_route() {
    let mut dex = setup();
    // Create USDC/ETH and ETH/SOL pools
    dex.create_pool("ETH", "USDC");
    dex.create_pool("ETH", "SOL");
    dex.add_liquidity(1, "lp", 100_000, 50_000, 0);
    dex.add_liquidity(2, "lp", 50_000, 200_000, 0);

    // Swap USDC → ETH → SOL
    let events = dex.swap_route("bob", &[1, 2], "USDC", 1_000, 0);
    assert_eq!(events.len(), 2);

    // Final output should be SOL
    if let DexEvent::Swap { output_token, output_amount, .. } = &events[1] {
        assert_eq!(output_token, "SOL");
        assert!(*output_amount > 0);
    }
}

// 11. Protocol fee accumulation — 0% (fee-free) by default, but test with explicit fee
#[test]
fn test_protocol_fee_accumulation() {
    let mut dex = setup();
    dex.create_pool("USDC", "ETH");
    dex.add_liquidity(1, "alice", 1_000_000, 500_000, 0);

    // With default 0% fees, no protocol fees accumulate
    dex.swap_exact_in(1, "bob", "USDC", 10_000, 0);
    dex.swap_exact_in(1, "bob", "USDC", 20_000, 0);

    let fees = dex.protocol_fees.get(&"USDC".to_string()).copied().unwrap_or(0);
    // protocol_fee_bps = 0 → no fees collected
    assert_eq!(fees, 0);

    // Now set fees explicitly (owner CAN enable fees later)
    dex.set_fee("owner", 1, 30); // 0.3%
    dex.protocol_fee_bps = 5; // 0.05%
    dex.swap_exact_in(1, "bob", "USDC", 10_000, 0);

    let fees_after = dex.protocol_fees.get(&"USDC".to_string()).copied().unwrap_or(0);
    // protocol_fee_bps = 5 → 10000*5/10000 = 5
    assert_eq!(fees_after, 5);

    // Collect
    let evt = dex.collect_protocol_fees("owner", "USDC");
    if let DexEvent::FeeCollected { amount, .. } = &evt {
        assert_eq!(*amount, 5);
    }
    assert_eq!(dex.protocol_fees.get(&"USDC".to_string()).copied().unwrap_or(0), 0);
}

// 12. Cannot swap on paused pool
#[test]
fn test_unpause_then_swap() {
    let mut dex = setup();
    dex.create_pool("USDC", "ETH");
    dex.add_liquidity(1, "alice", 100_000, 50_000, 0);

    dex.pause_pool("owner", 1);
    dex.unpause_pool("owner", 1);
    let evt = dex.swap_exact_in(1, "bob", "USDC", 1_000, 0);
    assert!(matches!(evt, DexEvent::Swap { .. }));
}

// 14. Set fee (admin only)
#[test]
fn test_get_best_route() {
    let mut dex = setup();
    dex.create_pool("ETH", "USDC");
    dex.create_pool("ETH", "SOL");
    dex.add_liquidity(1, "lp", 100_000, 100_000, 0);
    dex.add_liquidity(2, "lp", 100_000, 100_000, 0);

    let (path, output) = dex.get_best_route("USDC", "SOL", 1_000);
    assert_eq!(path.len(), 2);
    assert!(output > 0);
}

#[test]
fn test_full_withdrawal_returns_the_deposit() {
    let mut dex = DexState::new("owner".into());
    dex.create_pool("A", "B");
    dex.add_liquidity(1, "p", 12_345, 6_789, 0);
    let lp = dex.get_pool(1).unwrap().total_lp_tokens;
    match dex.remove_liquidity(1, "p", lp, 0, 0) {
        DexEvent::LiquidityRemoved { amount_a, amount_b, lp_burned, .. } => {
            assert_eq!((amount_a, amount_b, lp_burned), (12_345, 6_789, lp));
        }
        _ => panic!("expected a removal"),
    }
    let pool = dex.get_pool(1).unwrap();
    assert_eq!((pool.reserve_a, pool.reserve_b, pool.total_lp_tokens), (0, 0, 0));
}
