use dina::defi_lending::{LendingPoolState, SECONDS_PER_YEAR};
type Address = [u8; 32];


fn addr(n: u8) -> Address {
    let mut a = [0u8; 32];
    a[0] = n;
    a
}

fn make_pool() -> LendingPoolState {
    // base=2%, slope1=10%, slope2=100%, optimal=80%, reserve=10%
    LendingPoolState::new(addr(0), 200, 1000, 10000, 8000, 1000)
}

#[test]
fn test_supply_and_verify_balance() {
    let mut pool = make_pool();
    let shares = pool.supply(addr(1), 100_000_000, 1000); // 100 USDC
    assert_eq!(shares, 100_000_000); // first deposit: 1:1
    assert_eq!(pool.total_supplied, 100_000_000);
    assert_eq!(pool.get_supply_balance(&addr(1)), 100_000_000);
}

#[test]
fn test_borrow_and_verify_position() {
    let mut pool = make_pool();
    pool.supply(addr(1), 100_000_000, 1000);
    // M-4: addr(2) must supply collateral (150%) before borrowing
    pool.supply(addr(2), 100_000_000, 1000);
    pool.borrow(addr(2), 50_000_000, 1000);
    assert_eq!(pool.total_borrowed, 50_000_000);
    assert_eq!(pool.get_borrow_balance_for(&addr(2)), 50_000_000);
}

#[test]
fn test_interest_accrues_over_time() {
    let mut pool = make_pool();
    pool.supply(addr(1), 100_000_000, 0);
    // M-4: addr(2) must supply collateral before borrowing
    pool.supply(addr(2), 100_000_000, 0);
    pool.borrow(addr(2), 50_000_000, 0);

    // Advance 1 year
    pool.accrue_interest(SECONDS_PER_YEAR as u64);

    // Borrow balance should have increased
    let borrow_balance = pool.get_borrow_balance_for(&addr(2));
    assert!(
        borrow_balance > 50_000_000,
        "Borrow balance should increase with interest: {borrow_balance}"
    );

    // Supply balance should also have increased (suppliers earn interest)
    let supply_balance = pool.get_supply_balance(&addr(1));
    assert!(
        supply_balance > 100_000_000,
        "Supply balance should increase: {supply_balance}"
    );
}

#[test]
fn test_repay_clears_position() {
    let mut pool = make_pool();
    pool.supply(addr(1), 100_000_000, 0);
    pool.supply(addr(2), 100_000_000, 0);
    pool.borrow(addr(2), 50_000_000, 0);

    // Repay full amount immediately (no interest accrued yet at same timestamp)
    let excess = pool.repay(addr(2), 50_000_000, 0);
    assert_eq!(excess, 0);
    assert_eq!(pool.get_borrow_balance_for(&addr(2)), 0);
    assert!(pool.borrow_positions.get(&addr(2)).is_none());
}

#[test]
fn test_utilization_rate_calculation() {
    let mut pool = make_pool();
    // addr(1) supplies 100 USDC as the main liquidity provider
    pool.supply(addr(1), 100_000_000, 0);
    assert_eq!(pool.get_utilization_bps(), 0); // no borrows

    // M-4: addr(1) borrows against their own supply (self-collateralised)
    pool.borrow(addr(1), 50_000_000, 0);
    assert_eq!(pool.get_utilization_bps(), 5000); // 50%

    // addr(2) supplies enough collateral and borrows
    pool.supply(addr(2), 100_000_000, 0);
    // total_supplied is now 200M, total_borrowed is 50M
    // addr(2) borrows 30M (needs 45M collateral, has 100M supply share)
    pool.borrow(addr(2), 30_000_000, 0);
    // total_borrowed = 80M, total_supplied = 200M -> 4000 bps
    assert_eq!(pool.get_utilization_bps(), 4000); // 40%
}

#[test]
fn test_interest_rate_model_low_util() {
    let pool = make_pool();
    // At 0% utilization: rate = base = 200 bps (2%)
    assert_eq!(pool.get_borrow_apy_bps(), 200);
}

#[test]
fn test_interest_rate_model_high_util() {
    let mut pool = make_pool();
    // addr(1) supplies and borrows against own supply for high utilization
    pool.supply(addr(1), 100_000_000, 0);
    pool.borrow(addr(1), 60_000_000, 0); // needs 90M collateral, has 100M
    // addr(2) supplies collateral and borrows to push utilization higher
    pool.supply(addr(2), 100_000_000, 0);
    pool.borrow(addr(2), 30_000_000, 0); // needs 45M collateral, has 100M
    // total_supplied = 200M, total_borrowed = 90M -> 45% util
    // For the interest rate test we directly set state for clarity:
    let mut pool2 = make_pool();
    pool2.total_supplied = 100_000_000;
    pool2.total_borrowed = 90_000_000;
    let rate = pool2.get_borrow_apy_bps();
    // At 90%: base(200) + slope1(1000) + (10%/20%)*slope2(10000) = 200 + 1000 + 5000 = 6200
    assert_eq!(rate, 6200);
}

#[test]
fn test_supply_apy_less_than_borrow_apy() {
    let mut pool = make_pool();
    pool.supply(addr(1), 100_000_000, 0);
    pool.supply(addr(2), 100_000_000, 0);
    pool.borrow(addr(2), 50_000_000, 0);

    let supply_apy = pool.get_supply_apy_bps();
    let borrow_apy = pool.get_borrow_apy_bps();

    assert!(
        supply_apy < borrow_apy,
        "Supply APY ({supply_apy}) must be < Borrow APY ({borrow_apy})"
    );
}

#[test]
fn test_reserve_factor_accumulates_revenue() {
    let mut pool = make_pool();
    pool.supply(addr(1), 100_000_000, 0);
    pool.supply(addr(2), 100_000_000, 0);
    pool.borrow(addr(2), 50_000_000, 0);

    // Advance 1 year
    pool.accrue_interest(SECONDS_PER_YEAR as u64);

    assert!(
        pool.protocol_reserves > 0,
        "Protocol reserves should accumulate: {}",
        pool.protocol_reserves
    );
}

#[test]
fn test_multiple_suppliers_share_interest() {
    let mut pool = make_pool();

    // Alice and Bob each supply 50 USDC
    pool.supply(addr(1), 50_000_000, 0);
    pool.supply(addr(2), 50_000_000, 0);

    // Charlie supplies collateral and borrows 50 USDC
    pool.supply(addr(3), 100_000_000, 0);
    pool.borrow(addr(3), 50_000_000, 0);

    // Advance 1 year
    pool.accrue_interest(SECONDS_PER_YEAR as u64);

    let alice_bal = pool.get_supply_balance(&addr(1));
    let bob_bal = pool.get_supply_balance(&addr(2));

    // Both should have earned equal interest
    assert_eq!(alice_bal, bob_bal);
    assert!(alice_bal > 50_000_000);
}

#[test]
fn test_collect_reserves() {
    let mut pool = make_pool();
    pool.supply(addr(1), 100_000_000, 0);
    pool.supply(addr(2), 100_000_000, 0);
    pool.borrow(addr(2), 50_000_000, 0);
    pool.accrue_interest(SECONDS_PER_YEAR as u64);

    let reserves = pool.protocol_reserves;
    assert!(reserves > 0);

    let collected = pool.collect_reserves(addr(0));
    assert_eq!(collected, reserves);
    assert_eq!(pool.protocol_reserves, 0);
}


#[test]
fn lending_repay_partial_then_excess() {
    let mut pool = make_pool();
    pool.supply(addr(1), 100_000_000, 0);
    pool.borrow(addr(1), 40_000_000, 0);
    let excess = pool.repay(addr(1), 10_000_000, 0);
    assert_eq!(excess, 0);
    assert_eq!(pool.get_borrow_balance_for(&addr(1)), 30_000_000);
    assert_eq!(pool.total_borrowed, 30_000_000);
    let excess = pool.repay(addr(1), 35_000_000, 0);
    assert_eq!(excess, 5_000_000);
    assert_eq!(pool.total_borrowed, 0);
}

#[test]
fn lending_rate_kink_values() {
    let mut pool = make_pool();
    pool.total_supplied = 100;
    pool.total_borrowed = 40;
    assert_eq!(pool.get_utilization_bps(), 4000);
    assert_eq!(pool.get_borrow_apy_bps(), 200 + 4000 * 1000 / 8000);
    assert_eq!(pool.get_supply_apy_bps(), 700 * 4000 / 10000 * 9000 / 10000);
    let mut pool2 = make_pool();
    pool2.pause(addr(0));
    assert!(pool2.paused);
    pool2.unpause(addr(0));
    assert!(!pool2.paused);
}
