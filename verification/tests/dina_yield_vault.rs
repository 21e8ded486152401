use dina::dina_yield_vault::{YieldVault, DEFAULT_YIELD_RATE_BPS, SECONDS_PER_YEAR};

type Address = [u8; 32];


const ADMIN: Address = [1u8; 32];
const ALICE: Address = [2u8; 32];
const BOB: Address = [3u8; 32];
const ORACLE: Address = [4u8; 32];
const T0: u64 = 1_700_000_000;

// CAD rate: 1 USDC = 1.36 CAD => 1_360_000 micro-units per USDC
const CAD_RATE: u64 = 1_360_000;
// EUR rate: 1 USDC = 0.93 EUR => 930_000 micro-units per USDC
const EUR_RATE: u64 = 930_000;

fn new_vault() -> YieldVault {
    let mut v = YieldVault::new(ADMIN, DEFAULT_YIELD_RATE_BPS);
    v.add_oracle_updater(ADMIN, ORACLE);
    v
}

// 1. test_deposit_and_mint
#[test]
fn test_deposit_and_mint() {
    let mut v = new_vault();
    // Deposit 100 USDC at CAD rate 1.36
    let minted = v.deposit(ALICE, 100_000_000, "CAD".into(), CAD_RATE, T0);
    // Expected: 100_000_000 * 1_360_000 / 1_000_000 = 136_000_000
    assert_eq!(minted, 136_000_000);

    let deposit = v.get_deposit(&ALICE, "CAD").unwrap();
    assert_eq!(deposit.usdc_locked, 100_000_000);
    assert_eq!(deposit.stablecoin_minted, 136_000_000);
    assert_eq!(deposit.deposit_rate, CAD_RATE);
    assert_eq!(deposit.deposit_time, T0);
    assert_eq!(deposit.last_yield_claim, T0);

    // Vault totals
    assert_eq!(v.total_usdc_locked, 100_000_000);
    let info = v.get_currency_info("CAD").unwrap();
    assert_eq!(info.total_usdc_backing, 100_000_000);
    assert_eq!(info.total_stablecoin_supply, 136_000_000);
}

// 2. test_yield_calculation
#[test]
fn test_yield_calculation() {
    let mut v = new_vault();
    v.deposit(ALICE, 100_000_000, "CAD".into(), CAD_RATE, T0);
    // Set rate so calculate_pending_yield can look it up
    v.update_rate(ORACLE, "CAD", CAD_RATE, T0);

    // After 1 year at 4.5% APY
    let t1 = T0 + SECONDS_PER_YEAR;
    let (usdc_yield, cad_yield, rate) = v.calculate_pending_yield(&ALICE, "CAD", t1);

    // usdc_yield = 100_000_000 * 450 / 10_000 = 4_500_000
    assert_eq!(usdc_yield, 4_500_000);
    // cad_yield = 4_500_000 * 1_360_000 / 1_000_000 = 6_120_000
    assert_eq!(cad_yield, 6_120_000);
    assert_eq!(rate, CAD_RATE);
}

// 3. test_claim_yield
#[test]
fn test_claim_yield() {
    let mut v = new_vault();
    v.deposit(ALICE, 100_000_000, "CAD".into(), CAD_RATE, T0);
    v.update_rate(ORACLE, "CAD", CAD_RATE, T0);

    let t1 = T0 + SECONDS_PER_YEAR;
    let (usdc_yield, cad_yield, rate) = v.claim_yield(ALICE, "CAD", t1);

    assert_eq!(usdc_yield, 4_500_000);
    assert_eq!(cad_yield, 6_120_000);
    assert_eq!(rate, CAD_RATE);

    // Yield added to backing
    let deposit = v.get_deposit(&ALICE, "CAD").unwrap();
    assert_eq!(deposit.usdc_locked, 100_000_000 + 4_500_000);
    assert_eq!(deposit.last_yield_claim, t1);
    assert_eq!(deposit.total_usdc_yield_claimed, 4_500_000);
    assert_eq!(deposit.total_currency_yield_claimed, 6_120_000);

    // Vault totals
    assert_eq!(v.total_usdc_locked, 100_000_000 + 4_500_000);
    assert_eq!(v.total_yield_distributed, 4_500_000);
}

// 4. test_claim_yield_rate_change
#[test]
fn test_claim_yield_rate_change() {
    let mut v = new_vault();
    v.deposit(ALICE, 100_000_000, "CAD".into(), CAD_RATE, T0);
    v.update_rate(ORACLE, "CAD", CAD_RATE, T0);

    // CAD weakened: 1 USDC = 1.40 CAD
    let new_rate: u64 = 1_400_000;
    let t1 = T0 + SECONDS_PER_YEAR;
    v.update_rate(ORACLE, "CAD", new_rate, t1);

    let (usdc_yield, cad_yield, rate) = v.claim_yield(ALICE, "CAD", t1);

    // USDC yield is the same regardless of rate
    assert_eq!(usdc_yield, 4_500_000);
    // But CAD yield uses the NEW rate: 4_500_000 * 1_400_000 / 1_000_000 = 6_300_000
    assert_eq!(cad_yield, 6_300_000);
    assert_eq!(rate, new_rate);
}

// 5. test_withdraw
#[test]
fn test_withdraw() {
    let mut v = new_vault();
    v.deposit(ALICE, 100_000_000, "CAD".into(), CAD_RATE, T0);
    v.update_rate(ORACLE, "CAD", CAD_RATE, T0);

    // Withdraw all 136 CAD stablecoin at the same rate
    let released = v.withdraw(ALICE, "CAD", 136_000_000, T0);
    // 136_000_000 * 1_000_000 / 1_360_000 = 100_000_000
    assert_eq!(released, 100_000_000);

    let deposit = v.get_deposit(&ALICE, "CAD").unwrap();
    assert_eq!(deposit.usdc_locked, 0);
    assert_eq!(deposit.stablecoin_minted, 0);
    assert_eq!(v.total_usdc_locked, 0);
}

// 6. test_withdraw_after_rate_change
#[test]
fn test_withdraw_after_rate_change() {
    let mut v = new_vault();
    // Deposit 110 USDC to give headroom for rate movement
    v.deposit(ALICE, 110_000_000, "CAD".into(), CAD_RATE, T0);
    v.update_rate(ORACLE, "CAD", CAD_RATE, T0);
    // Minted: 110_000_000 * 1_360_000 / 1_000_000 = 149_600_000 CAD

    // CAD strengthened: 1 USDC = 1.30 CAD (CAD is worth more)
    let stronger_rate: u64 = 1_300_000;
    v.update_rate(ORACLE, "CAD", stronger_rate, T0 + 1);

    // Withdraw 130 CAD stablecoin at the stronger rate
    // 130_000_000 * 1_000_000 / 1_300_000 = 100_000_000 USDC
    let released = v.withdraw(ALICE, "CAD", 130_000_000, T0 + 1);
    assert_eq!(released, 100_000_000);

    // At deposit rate 1.36, 130 CAD would have been worth ~95.6M USDC
    // But at stronger rate 1.30, 130 CAD is worth 100M USDC
    // User gets MORE USDC per CAD because CAD strengthened
    // Verify: at deposit rate, same CAD would release less
    let at_deposit_rate = (130_000_000u128 * 1_000_000 / CAD_RATE as u128) as u64;
    assert!(released > at_deposit_rate); // 100M > 95.6M

    // Also test CAD weakening: user gets LESS USDC per CAD
    let weaker_rate: u64 = 1_500_000;
    v.update_rate(ORACLE, "CAD", weaker_rate, T0 + 2);

    // Remaining: 19_600_000 CAD stablecoin, 10_000_000 USDC locked
    // Withdraw 15_000_000 CAD at weak rate: 15M * 1M / 1.5M = 10_000_000 USDC
    let released2 = v.withdraw(ALICE, "CAD", 15_000_000, T0 + 2);
    assert_eq!(released2, 10_000_000);
    // At the deposit-time rate 1.36, 15M CAD = ~11M USDC
    // But at weaker rate 1.50, 15M CAD = only 10M USDC
    // User gets LESS USDC because CAD weakened
    let at_deposit_rate2 = (15_000_000u128 * 1_000_000 / CAD_RATE as u128) as u64;
    assert!(released2 < at_deposit_rate2);
}

// 7. test_multiple_currencies
#[test]
fn test_multiple_currencies() {
    let mut v = new_vault();
    v.update_rate(ORACLE, "CAD", CAD_RATE, T0);
    v.update_rate(ORACLE, "EUR", EUR_RATE, T0);

    let cad_minted = v.deposit(ALICE, 50_000_000, "CAD".into(), CAD_RATE, T0);
    let eur_minted = v.deposit(ALICE, 50_000_000, "EUR".into(), EUR_RATE, T0);

    // CAD: 50M * 1.36 = 68M
    assert_eq!(cad_minted, 68_000_000);
    // EUR: 50M * 0.93 = 46.5M
    assert_eq!(eur_minted, 46_500_000);

    assert_eq!(v.total_usdc_locked, 100_000_000);

    let deposits = v.list_all_deposits(&ALICE);
    assert_eq!(deposits.len(), 2);

    let cad_dep = v.get_deposit(&ALICE, "CAD").unwrap();
    assert_eq!(cad_dep.usdc_locked, 50_000_000);
    let eur_dep = v.get_deposit(&ALICE, "EUR").unwrap();
    assert_eq!(eur_dep.usdc_locked, 50_000_000);
}

// 8. test_rate_history
#[test]
fn test_rate_history() {
    let mut v = new_vault();

    // Update rates hourly for 5 hours
    for i in 0..5 {
        let rate = CAD_RATE + i * 1000;
        let ts = T0 + i * 3600;
        v.update_rate(ORACLE, "CAD", rate, ts);
    }

    let history = v.get_rate_history("CAD", 10);
    assert_eq!(history.len(), 5);
    // Newest first
    assert_eq!(history[0].rate, CAD_RATE + 4 * 1000);
    assert_eq!(history[4].rate, CAD_RATE);
}

// 9. test_rate_stats
#[test]
fn test_rate_stats() {
    let mut v = new_vault();

    // Populate 48 hours of rate history (every hour)
    let rates = [
        1_360_000u64, 1_362_000, 1_358_000, 1_365_000, 1_355_000, 1_370_000,
        1_350_000, 1_360_000, 1_360_000, 1_360_000, 1_360_000, 1_360_000,
        1_360_000, 1_360_000, 1_360_000, 1_360_000, 1_360_000, 1_360_000,
        1_360_000, 1_360_000, 1_360_000, 1_360_000, 1_360_000, 1_360_000,
        // Second day
        1_380_000, 1_340_000, 1_360_000, 1_360_000, 1_360_000, 1_360_000,
        1_360_000, 1_360_000, 1_360_000, 1_360_000, 1_360_000, 1_360_000,
        1_360_000, 1_360_000, 1_360_000, 1_360_000, 1_360_000, 1_360_000,
        1_360_000, 1_360_000, 1_360_000, 1_360_000, 1_360_000, 1_360_000,
    ];

    for (i, &rate) in rates.iter().enumerate() {
        let ts = T0 + (i as u64) * 3600;
        v.update_rate(ORACLE, "CAD", rate, ts);
    }

    let stats = v.get_rate_stats("CAD").unwrap();
    assert_eq!(stats.current, *rates.last().unwrap());

    // 24h window = first 24 entries (newest first), which covers the second day
    // The most recent 24 entries in history are rates[24..48]
    assert!(stats.high_24h >= 1_360_000);
    assert!(stats.low_24h <= 1_360_000);

    // 30d window covers all entries
    assert_eq!(stats.high_30d, 1_380_000);
    assert_eq!(stats.low_30d, 1_340_000);
}

// 10. test_proof_of_reserves
#[test]
fn lib_test_proof_of_reserves_vault() {
    let mut v = new_vault();
    v.update_rate(ORACLE, "CAD", CAD_RATE, T0);

    v.deposit(ALICE, 100_000_000, "CAD".into(), CAD_RATE, T0);

    let proof = v.proof_of_reserves(T0);
    assert_eq!(proof.total_usdc_in_vault, 100_000_000);
    assert!(proof.is_fully_backed);
    assert_eq!(proof.per_currency.len(), 1);

    let cad = &proof.per_currency[0];
    assert_eq!(cad.currency, "CAD");
    assert_eq!(cad.stablecoin_supply, 136_000_000);
    assert_eq!(cad.usdc_backing, 100_000_000);
    // supply_value_in_usdc = 136_000_000 * 1_000_000 / 1_360_000 = 100_000_000
    assert_eq!(cad.supply_value_in_usdc, 100_000_000);
    assert!(cad.is_backed);
    // Collateral ratio = 100M / 100M * 10000 = 10000 (exactly 1:1)
    assert_eq!(cad.collateral_ratio_bps, 10_000);
}

// 11. test_overcollateralization
#[test]
fn test_overcollateralization() {
    let mut v = new_vault();
    v.update_rate(ORACLE, "CAD", CAD_RATE, T0);

    // Deposit 100 USDC -> 136 CAD
    v.deposit(ALICE, 100_000_000, "CAD".into(), CAD_RATE, T0);

    // CAD weakens: 1 USDC = 1.50 CAD
    // Now 136 CAD is worth only 136/1.50 = 90.67 USDC
    // But vault still has 100 USDC backing
    let weaker_rate: u64 = 1_500_000;
    v.update_rate(ORACLE, "CAD", weaker_rate, T0 + 3600);

    let proof = v.proof_of_reserves(T0 + 3600);
    assert!(proof.is_fully_backed);
    // supply_value = 136_000_000 * 1_000_000 / 1_500_000 = 90_666_666
    let cad = &proof.per_currency[0];
    assert_eq!(cad.supply_value_in_usdc, 90_666_666);
    assert!(cad.collateral_ratio_bps > 10_000); // over-collateralized
    assert!(proof.overcollateral_bps > 0);
}

// 12. test_oracle_access_control
#[test]
fn test_oracle_access_control() {
    let mut v = new_vault();
    // ORACLE is already added in new_vault()
    v.update_rate(ORACLE, "CAD", CAD_RATE, T0); // should succeed

    // Admin can also update
    v.update_rate(ADMIN, "CAD", CAD_RATE + 1000, T0 + 3600);
}

#[test]
fn test_oracle_add_remove() {
    let mut v = new_vault();
    v.add_oracle_updater(ADMIN, BOB);
    v.update_rate(BOB, "CAD", CAD_RATE, T0); // should succeed
    v.remove_oracle_updater(ADMIN, BOB);
}

#[test]
fn test_pause() {
    let mut v = new_vault();
    v.update_rate(ORACLE, "CAD", CAD_RATE, T0);
    v.deposit(ALICE, 100_000_000, "CAD".into(), CAD_RATE, T0);

    v.pause(ADMIN);
    assert!(v.paused);
}

#[test]
fn test_unpause_resumes() {
    let mut v = new_vault();
    v.update_rate(ORACLE, "CAD", CAD_RATE, T0);
    v.pause(ADMIN);
    v.unpause(ADMIN);
    // Should work again
    v.deposit(ALICE, 100_000_000, "CAD".into(), CAD_RATE, T0);
}

// 14. test_multiple_claims
#[test]
fn test_multiple_claims() {
    let mut v = new_vault();
    v.update_rate(ORACLE, "CAD", CAD_RATE, T0);
    v.deposit(ALICE, 100_000_000, "CAD".into(), CAD_RATE, T0);

    // First claim after 6 months
    let t1 = T0 + SECONDS_PER_YEAR / 2;
    let (usdc1, _, _) = v.claim_yield(ALICE, "CAD", t1);
    // 100_000_000 * 450 * (SECONDS_PER_YEAR/2) / (10000 * SECONDS_PER_YEAR) = 2_250_000
    assert_eq!(usdc1, 2_250_000);

    // Second claim after another 6 months (1 year total)
    let t2 = T0 + SECONDS_PER_YEAR;
    let (usdc2, _, _) = v.claim_yield(ALICE, "CAD", t2);
    // Now earning on 102_250_000 (principal + first yield)
    // 102_250_000 * 450 * (SECONDS_PER_YEAR/2) / (10000 * SECONDS_PER_YEAR) = 2_300_625
    assert_eq!(usdc2, 2_300_625);

    // Total yield is compounded (more than simple 4_500_000)
    let deposit = v.get_deposit(&ALICE, "CAD").unwrap();
    assert_eq!(deposit.total_usdc_yield_claimed, usdc1 + usdc2);
    assert_eq!(
        deposit.usdc_locked,
        100_000_000 + usdc1 + usdc2
    );
}

// -- Dispatch tests -------------------------------------------------------

