use dina::dina_stablecoin_factory::{StablecoinState, SECONDS_PER_YEAR};

type Address = [u8; 32];


const ADMIN: Address = [1u8; 32];
const ALICE: Address = [2u8; 32];
const BOB: Address = [3u8; 32];
const T0: u64 = 1_700_000_000;

fn new_eurc() -> StablecoinState {
    StablecoinState::new(
        "Dina Euro".into(),
        "EURC".into(),
        6,
        ADMIN,
        930_000,  // 0.93 EUR per USDC
        400,      // 4% APY
    )
}

// -- Init & queries -------------------------------------------------------

#[test]
fn test_init_state() {
    let s = new_eurc();
    assert_eq!(s.name(), "Dina Euro");
    assert_eq!(s.symbol(), "EURC");
    assert_eq!(s.decimals(), 6);
    assert_eq!(s.total_supply(), 0);
    assert_eq!(s.rate_per_usdc, 930_000);
    assert_eq!(s.yield_rate_bps, 400);
    assert!(!s.paused);
}

// -- Mint -----------------------------------------------------------------

#[test]
fn test_mint() {
    let mut s = new_eurc();
    // Mint 93 EURC backed by 100 USDC
    s.mint(ADMIN, ALICE, 93_000_000, 100_000_000, T0);
    assert_eq!(s.balance_of(&ALICE), 93_000_000);
    assert_eq!(s.total_supply(), 93_000_000);
    assert_eq!(s.usdc_backing, 100_000_000);
}

#[test]
fn test_burn() {
    let mut s = new_eurc();
    s.mint(ADMIN, ALICE, 93_000_000, 100_000_000, T0);
    s.burn(ADMIN, ALICE, 50_000_000, 53_763_441, T0);
    assert_eq!(s.balance_of(&ALICE), 43_000_000);
    assert_eq!(s.total_supply(), 43_000_000);
    assert_eq!(s.usdc_backing, 100_000_000 - 53_763_441);
}

#[test]
fn lib_test_transfer_stablecoin() {
    let mut s = new_eurc();
    s.mint(ADMIN, ALICE, 1_000_000, 1_075_269, T0);
    s.transfer(ALICE, BOB, 400_000, T0);
    assert_eq!(s.balance_of(&ALICE), 600_000);
    assert_eq!(s.balance_of(&BOB), 400_000);
}

#[test]
fn lib_test_approve_and_transfer_from_stablecoin() {
    let mut s = new_eurc();
    s.mint(ADMIN, ALICE, 1_000_000, 1_075_269, T0);
    s.approve(ALICE, BOB, 500_000);
    assert_eq!(s.allowance(&ALICE, &BOB), 500_000);
    s.transfer_from(BOB, ALICE, BOB, 300_000, T0);
    assert_eq!(s.balance_of(&ALICE), 700_000);
    assert_eq!(s.balance_of(&BOB), 300_000);
    assert_eq!(s.allowance(&ALICE, &BOB), 200_000);
}

#[test]
fn test_yield_accrual() {
    let mut s = new_eurc();
    // 4% APY on 1,000,000 micro-units
    s.mint(ADMIN, ALICE, 1_000_000, 1_075_269, T0);
    // Advance 1 year, mint more to trigger yield settlement
    let t1 = T0 + SECONDS_PER_YEAR;
    s.mint(ADMIN, ALICE, 1, 1, t1);
    // Expected yield: 1_000_000 * 400 / 10_000 = 40_000 (4%)
    // Balance = 1_000_000 + 40_000 + 1 = 1_040_001
    assert_eq!(s.balance_of(&ALICE), 1_040_001);
}

#[test]
fn test_yield_accrual_on_transfer() {
    let mut s = new_eurc();
    // 4% APY on 10,000,000 micro-units (10 EURC)
    s.mint(ADMIN, ALICE, 10_000_000, 10_752_688, T0);

    // Advance half a year
    let t1 = T0 + SECONDS_PER_YEAR / 2;
    // Transfer triggers yield settlement
    s.transfer(ALICE, BOB, 1_000_000, t1);

    // Expected yield: 10_000_000 * 400 * (SECONDS_PER_YEAR/2) / (10000 * SECONDS_PER_YEAR)
    // = 10_000_000 * 400 / 20_000 = 200_000
    let alice_bal = s.balance_of(&ALICE);
    let bob_bal = s.balance_of(&BOB);
    // Alice had 10M, got 200K yield, then sent 1M => 9.2M
    assert_eq!(alice_bal, 9_200_000);
    assert_eq!(bob_bal, 1_000_000);
    // Total supply increased by yield
    assert_eq!(s.total_supply(), 10_000_000 + 200_000);
}

#[test]
fn test_yield_accrual_full_year() {
    let mut s = new_eurc();
    s.mint(ADMIN, ALICE, 1_000_000, 1_075_269, T0);
    let t1 = T0 + SECONDS_PER_YEAR;
    // Trigger yield via a transfer
    s.transfer(ALICE, BOB, 100_000, t1);
    // Expected yield: 1_000_000 * 400 / 10_000 = 40_000 (4%)
    // Alice: 1_000_000 + 40_000 - 100_000 = 940_000
    assert_eq!(s.balance_of(&ALICE), 940_000);
    assert_eq!(s.balance_of(&BOB), 100_000);
}

// -- Rate & reserves ------------------------------------------------------

#[test]
fn test_update_rate() {
    let mut s = new_eurc();
    s.update_rate(ADMIN, 950_000);
    assert_eq!(s.rate_per_usdc, 950_000);
}

#[test]
fn lib_test_proof_of_reserves() {
    let mut s = new_eurc();
    // Mint 93 EURC backed by 100 USDC
    s.mint(ADMIN, ALICE, 93_000_000, 100_000_000, T0);
    let (backing, value, backed) = s.proof_of_reserves();
    assert_eq!(backing, 100_000_000);
    // value = 93_000_000 * 1_000_000 / 930_000 = 100_000_000
    assert_eq!(value, 100_000_000);
    assert!(backed);
}

#[test]
fn lib_test_proof_of_reserves_underbacked() {
    let mut s = new_eurc();
    s.mint(ADMIN, ALICE, 93_000_000, 90_000_000, T0);
    let (backing, value, backed) = s.proof_of_reserves();
    assert_eq!(backing, 90_000_000);
    assert_eq!(value, 100_000_000);
    assert!(!backed);
}

// -- Pause/unpause --------------------------------------------------------

#[test]
fn lib_test_pause_unpause_stablecoin() {
    let mut s = new_eurc();
    s.pause(ADMIN);
    assert!(s.paused);
    s.unpause(ADMIN);
    assert!(!s.paused);
}

#[test]
fn test_update_yield_rate() {
    let mut s = new_eurc();
    s.update_yield_rate(ADMIN, 500);
    assert_eq!(s.yield_rate_bps, 500);
}
