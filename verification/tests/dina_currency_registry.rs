use dina::dina_currency_registry::CurrencyRegistry;

type Address = [u8; 32];


const ADMIN: Address = [1u8; 32];
const USER: Address = [2u8; 32];
const EURC_ADDR: Address = [10u8; 32];
const GBPC_ADDR: Address = [11u8; 32];
const CADC_ADDR: Address = [12u8; 32];

fn setup_registry() -> CurrencyRegistry {
    let mut r = CurrencyRegistry::new(ADMIN);
    r.register_currency(
        ADMIN,
        "EURC".into(),
        "Dina Euro".into(),
        6,
        EURC_ADDR,
        930_000,
        400,
    );
    r.register_currency(
        ADMIN,
        "GBPC".into(),
        "Dina British Pound".into(),
        6,
        GBPC_ADDR,
        790_000,
        350,
    );
    r
}

// -- Registration --------------------------------------------------------

#[test]
fn test_register_currency() {
    let r = setup_registry();
    assert_eq!(r.currency_count(), 2);
    let eurc = r.get_currency("EURC").unwrap();
    assert_eq!(eurc.name, "Dina Euro");
    assert_eq!(eurc.symbol, "EURC");
    assert_eq!(eurc.decimals, 6);
    assert_eq!(eurc.oracle_rate, 930_000);
    assert_eq!(eurc.yield_rate_bps, 400);
    assert!(eurc.active);
    assert_eq!(eurc.total_supply, 0);
    assert_eq!(eurc.usdc_backing, 0);
}

#[test]
fn test_update_currency() {
    let mut r = setup_registry();
    r.update_currency(
        ADMIN,
        "EURC".into(),
        Some(940_000),
        Some(450),
        Some(100_000_000),
        Some(107_526_882),
    );
    let eurc = r.get_currency("EURC").unwrap();
    assert_eq!(eurc.oracle_rate, 940_000);
    assert_eq!(eurc.yield_rate_bps, 450);
    assert_eq!(eurc.total_supply, 100_000_000);
    assert_eq!(eurc.usdc_backing, 107_526_882);
}

#[test]
fn test_update_currency_partial() {
    let mut r = setup_registry();
    r.update_currency(ADMIN, "EURC".into(), Some(950_000), None, None, None);
    let eurc = r.get_currency("EURC").unwrap();
    assert_eq!(eurc.oracle_rate, 950_000);
    assert_eq!(eurc.yield_rate_bps, 400); // unchanged
}

#[test]
fn test_deactivate_currency() {
    let mut r = setup_registry();
    r.deactivate_currency(ADMIN, "EURC".into());
    let eurc = r.get_currency("EURC").unwrap();
    assert!(!eurc.active);
    assert_eq!(r.active_count(), 1);
    assert_eq!(r.currency_count(), 2);
}

#[test]
fn test_activate_currency() {
    let mut r = setup_registry();
    r.deactivate_currency(ADMIN, "EURC".into());
    r.activate_currency(ADMIN, "EURC".into());
    let eurc = r.get_currency("EURC").unwrap();
    assert!(eurc.active);
    assert_eq!(r.active_count(), 2);
}

#[test]
fn test_get_currency_not_found() {
    let r = setup_registry();
    assert!(r.get_currency("XYZ").is_none());
}

#[test]
fn test_list_currencies() {
    let r = setup_registry();
    let list = r.list_currencies();
    assert_eq!(list.len(), 2);
}

#[test]
fn test_list_active_currencies() {
    let mut r = setup_registry();
    r.deactivate_currency(ADMIN, "GBPC".into());
    let active = r.list_active_currencies();
    assert_eq!(active.len(), 1);
    assert_eq!(active[0].symbol, "EURC");
}

#[test]
fn test_total_usdc_backing() {
    let mut r = setup_registry();
    r.update_currency(ADMIN, "EURC".into(), None, None, None, Some(100_000_000));
    r.update_currency(ADMIN, "GBPC".into(), None, None, None, Some(50_000_000));
    assert_eq!(r.total_usdc_backing(), 150_000_000);

    // Deactivated currencies excluded
    r.deactivate_currency(ADMIN, "GBPC".into());
    assert_eq!(r.total_usdc_backing(), 100_000_000);
}

// -- Dispatch tests ------------------------------------------------------

