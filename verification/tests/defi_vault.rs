use dina::defi_vault::{VaultState, VaultStrategy};
type Address = [u8; 32];


fn addr(n: u8) -> Address {
    let mut a = [0u8; 32];
    a[0] = n;
    a
}

fn make_vault() -> VaultState {
    VaultState::new(
        "USDC Yield Vault".into(),
        "yvUSDC".into(),
        addr(0),
        VaultStrategy::Manual { apy_bps: 500 },
        1_000_000_000, // 1000 USDC (6 decimals)
    )
}

#[test]
fn test_create_vault_and_first_deposit() {
    let mut vault = make_vault();
    let shares = vault.deposit(addr(1), 1_000_000); // 1 USDC
    // First deposit: 1:1 shares
    assert_eq!(shares, 1_000_000);
    assert_eq!(vault.total_assets, 1_000_000);
    assert_eq!(vault.total_shares, 1_000_000);
    assert_eq!(vault.get_share_balance(&addr(1)), 1_000_000);
}

#[test]
fn test_multiple_depositors_proportional_shares() {
    let mut vault = make_vault();
    // Alice deposits 100 USDC
    let alice_shares = vault.deposit(addr(1), 100_000_000);
    assert_eq!(alice_shares, 100_000_000);

    // Bob deposits 50 USDC — should get proportional shares
    let bob_shares = vault.deposit(addr(2), 50_000_000);
    assert_eq!(bob_shares, 50_000_000);

    assert_eq!(vault.total_assets, 150_000_000);
    assert_eq!(vault.total_shares, 150_000_000);
}

#[test]
fn test_harvest_increases_share_value() {
    let mut vault = make_vault();
    vault.deposit(addr(1), 100_000_000); // 100 USDC

    // Harvest 10 USDC yield
    vault.harvest(addr(0), 10_000_000, 1000);

    assert_eq!(vault.total_assets, 110_000_000);
    assert_eq!(vault.total_shares, 100_000_000); // shares unchanged
    assert_eq!(vault.cumulative_yield, 10_000_000);
    assert_eq!(vault.last_harvest, 1000);

    // Each share is now worth 1.1 USDC
    let value = vault.get_share_value(100_000_000);
    assert_eq!(value, 110_000_000);
}

#[test]
fn test_withdraw_after_yield() {
    let mut vault = make_vault();
    vault.deposit(addr(1), 100_000_000); // 100 USDC
    vault.harvest(addr(0), 10_000_000, 1000); // +10 USDC yield

    // Withdraw all shares — should get 110 USDC
    let assets = vault.withdraw(addr(1), 100_000_000);
    assert_eq!(assets, 110_000_000);
    assert_eq!(vault.total_assets, 0);
    assert_eq!(vault.total_shares, 0);
}

#[test]
fn test_preview_matches_actual() {
    let mut vault = make_vault();
    vault.deposit(addr(1), 100_000_000);
    vault.harvest(addr(0), 10_000_000, 1000);

    // Preview deposit
    let preview_shares = vault.preview_deposit(50_000_000);
    let actual_shares = vault.deposit(addr(2), 50_000_000);
    assert_eq!(preview_shares, actual_shares);

    // Preview withdraw
    let preview_assets = vault.preview_withdraw(actual_shares);
    let actual_assets = vault.withdraw(addr(2), actual_shares);
    assert_eq!(preview_assets, actual_assets);
}

#[test]
fn test_manual_add_yield() {
    let mut vault = make_vault();
    vault.deposit(addr(1), 100_000_000);
    vault.add_yield(addr(0), 5_000_000);
    assert_eq!(vault.total_assets, 105_000_000);
    assert_eq!(vault.cumulative_yield, 5_000_000);
}

#[test]
fn test_share_price_increases_with_yield() {
    let mut vault = make_vault();

    // Alice deposits 100 USDC
    vault.deposit(addr(1), 100_000_000);
    let value_before = vault.get_share_value(100_000_000);
    assert_eq!(value_before, 100_000_000);

    // Add 20 USDC yield
    vault.add_yield(addr(0), 20_000_000);

    let value_after = vault.get_share_value(100_000_000);
    assert_eq!(value_after, 120_000_000);

    // Bob deposits 120 USDC — gets 100M shares (same as Alice)
    let bob_shares = vault.deposit(addr(2), 120_000_000);
    assert_eq!(bob_shares, 100_000_000);
}

#[test]
fn test_unpause_restores_operations() {
    let mut vault = make_vault();
    vault.pause(addr(0));
    vault.unpause(addr(0));
    let shares = vault.deposit(addr(1), 1_000_000);
    assert_eq!(shares, 1_000_000);
}

#[test]
fn test_set_deposit_limit() {
    let mut vault = make_vault();
    vault.set_deposit_limit(addr(0), 500_000);
    assert_eq!(vault.deposit_limit, 500_000);
}


#[test]
fn vault_info_reports_state() {
    let mut vault = make_vault();
    vault.deposit(addr(1), 2_000_000);
    let info = vault.get_vault_info();
    assert_eq!(info.name, "USDC Yield Vault");
    assert_eq!(info.symbol, "yvUSDC");
    assert_eq!(info.total_assets, 2_000_000);
    assert_eq!(info.strategy, VaultStrategy::Manual { apy_bps: 500 });
    assert_eq!(info.min_deposit, 1);
}

#[test]
fn vault_rounding_never_profits_depositor() {
    let mut vault = make_vault();
    vault.deposit(addr(1), 3);
    vault.add_yield(addr(0), 1);
    let shares = vault.deposit(addr(2), 2);
    assert_eq!(shares, 1);
    let back = vault.withdraw(addr(2), shares);
    assert!(back <= 2);
    assert_eq!(back, 1);
}
