use dina::dina_fx_swap::FxSwapState;

type Address = [u8; 32];


const ADMIN: Address = [1u8; 32];
const ORACLE: Address = [2u8; 32];
const USER: Address = [3u8; 32];
const T0: u64 = 1_700_000_000;

fn setup_swap() -> FxSwapState {
    let mut s = FxSwapState::new(ADMIN, 500, 3600); // 5% max swap, 1hr staleness
    s.add_oracle_updater(ADMIN, ORACLE);

    // Set up oracle rates
    s.update_oracle_rate(ADMIN, "USDC".into(), 1_000_000, T0);
    s.update_oracle_rate(ADMIN, "EURC".into(), 930_000, T0);
    s.update_oracle_rate(ADMIN, "GBPC".into(), 790_000, T0);

    // Add liquidity (large pools so 5% limit allows 100+ unit swaps)
    s.add_liquidity(ADMIN, "USDC".into(), 10_000_000_000); // 10,000 USDC
    s.add_liquidity(ADMIN, "EURC".into(), 9_300_000_000);  // 9,300 EURC
    s.add_liquidity(ADMIN, "GBPC".into(), 7_900_000_000);  // 7,900 GBPC

    // Add USDC reserves backing
    s.add_usdc_reserves(ADMIN, 30_000_000_000);

    s
}

// -- Basic swap USDC -> EURC ---------------------------------------------

#[test]
fn test_swap_usdc_to_eurc() {
    let mut s = setup_swap();
    // Swap 100 USDC to EURC
    // output = 100_000_000 * 930_000 / 1_000_000 = 93_000_000
    let output = s.swap(USER, "USDC".into(), "EURC".into(), 100_000_000, 0, T0);
    assert_eq!(output, 93_000_000); // 93 EURC

    // USDC pool increased, EURC pool decreased
    assert_eq!(*s.pools.get(&"USDC".to_string()).unwrap(), 10_100_000_000);
    assert_eq!(*s.pools.get(&"EURC".to_string()).unwrap(), 9_207_000_000);
}

// -- Reverse swap EURC -> USDC -------------------------------------------

#[test]
fn test_swap_eurc_to_usdc() {
    let mut s = setup_swap();
    // Swap 93 EURC to USDC
    // output = 93_000_000 * 1_000_000 / 930_000 = 100_000_000
    let output = s.swap(USER, "EURC".into(), "USDC".into(), 93_000_000, 0, T0);
    assert_eq!(output, 100_000_000); // 100 USDC

    assert_eq!(*s.pools.get(&"EURC".to_string()).unwrap(), 9_393_000_000);
    assert_eq!(*s.pools.get(&"USDC".to_string()).unwrap(), 9_900_000_000);
}

// -- Cross-currency swap EURC -> GBPC (via oracle math) ------------------

#[test]
fn test_swap_eurc_to_gbpc() {
    let mut s = setup_swap();
    // Swap 93 EURC to GBPC
    // output = 93_000_000 * 790_000 / 930_000 = 79_000_000
    let output = s.swap(USER, "EURC".into(), "GBPC".into(), 93_000_000, 0, T0);
    assert_eq!(output, 79_000_000); // 79 GBPC

    assert_eq!(*s.pools.get(&"EURC".to_string()).unwrap(), 9_393_000_000);
    assert_eq!(*s.pools.get(&"GBPC".to_string()).unwrap(), 7_821_000_000);
}

// -- Stale oracle rejection ----------------------------------------------

#[test]
fn test_swap_at_max_size() {
    let mut s = setup_swap();
    // Swap exactly 5% of USDC pool = 500,000,000
    let output = s.swap(USER, "USDC".into(), "EURC".into(), 500_000_000, 0, T0);
    // 500_000_000 * 930_000 / 1_000_000 = 465_000_000
    assert_eq!(output, 465_000_000);
}

// -- Min output ----------------------------------------------------------

#[test]
fn test_get_quote() {
    let s = setup_swap();
    let quote = s.get_quote("USDC", "EURC", 100_000_000);
    assert_eq!(quote, 93_000_000);

    let quote2 = s.get_quote("EURC", "USDC", 93_000_000);
    assert_eq!(quote2, 100_000_000);

    let quote3 = s.get_quote("EURC", "GBPC", 93_000_000);
    assert_eq!(quote3, 79_000_000);
}

// -- Proof of reserves ---------------------------------------------------

#[test]
fn lib_test_proof_of_reserves_fx() {
    let s = setup_swap();
    let (reserves, value, backed) = s.proof_of_reserves();
    assert_eq!(reserves, 30_000_000_000);
    // USDC: 10B * 1M / 1M = 10B
    // EURC: 9.3B * 1M / 930K = 10B
    // GBPC: 7.9B * 1M / 790K = 10B
    // Total: 30B
    assert_eq!(value, 30_000_000_000);
    assert!(backed);
}

#[test]
fn lib_test_proof_of_reserves_underbacked_fx() {
    let mut s = setup_swap();
    s.usdc_reserves = 1_000_000_000; // Only 1B out of 30B needed
    let (reserves, value, backed) = s.proof_of_reserves();
    assert_eq!(reserves, 1_000_000_000);
    assert_eq!(value, 30_000_000_000);
    assert!(!backed);
}

// -- Oracle updaters -----------------------------------------------------

#[test]
fn test_add_remove_oracle_updater() {
    let mut s = FxSwapState::new(ADMIN, 100, 3600);
    s.add_oracle_updater(ADMIN, ORACLE);
    assert!(s.is_oracle_updater(&ORACLE));
    s.remove_oracle_updater(ADMIN, ORACLE);
    assert!(!s.is_oracle_updater(&ORACLE));
}

#[test]
fn test_add_remove_liquidity() {
    let mut s = FxSwapState::new(ADMIN, 100, 3600);
    s.add_liquidity(ADMIN, "USDC".into(), 500);
    assert_eq!(*s.pools.get(&"USDC".to_string()).unwrap(), 500);
    s.remove_liquidity(ADMIN, "USDC".into(), 200);
    assert_eq!(*s.pools.get(&"USDC".to_string()).unwrap(), 300);
}

#[test]
fn lib_test_pause_unpause_fx() {
    let mut s = setup_swap();
    s.pause(ADMIN);
    assert!(s.paused);
    s.unpause(ADMIN);
    assert!(!s.paused);
}

// -- Same currency -------------------------------------------------------

#[test]
fn test_volume_tracking() {
    let mut s = setup_swap();
    s.swap(USER, "USDC".into(), "EURC".into(), 50_000_000, 0, T0);
    // Volume = 50_000_000 * 1_000_000 / 1_000_000 = 50_000_000 USDC
    assert_eq!(s.total_volume_usdc, 50_000_000);
}

// -- Dispatch tests ------------------------------------------------------

