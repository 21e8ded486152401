use dina::bridge_usdc::BridgedUsdcState;


fn owner() -> [u8; 32] {
    [1u8; 32]
}
fn bridge() -> [u8; 32] {
    [2u8; 32]
}
fn alice() -> [u8; 32] {
    [3u8; 32]
}
fn bob() -> [u8; 32] {
    [4u8; 32]
}

fn setup() -> BridgedUsdcState {
    let mut s = BridgedUsdcState::new(owner());
    s.set_bridge_address(owner(), bridge());
    s
}

#[test]
fn test_init_and_metadata() {
    let s = BridgedUsdcState::new(owner());
    assert_eq!(s.name(), "Bridged USDC (Dina)");
    assert_eq!(s.symbol(), "USDC.e");
    assert_eq!(s.decimals(), 6);
    assert_eq!(s.total_supply(), 0);
}

#[test]
fn test_mint_by_bridge() {
    let mut s = setup();
    s.mint(bridge(), alice(), 1_000_000);
    assert_eq!(s.balance_of(&alice()), 1_000_000);
    assert_eq!(s.total_supply(), 1_000_000);
}

#[test]
fn test_burn_by_bridge() {
    let mut s = setup();
    s.mint(bridge(), alice(), 1_000_000);
    s.burn(bridge(), alice(), 500_000);
    assert_eq!(s.balance_of(&alice()), 500_000);
    assert_eq!(s.total_supply(), 500_000);
}

#[test]
fn test_burn_by_holder() {
    let mut s = setup();
    s.mint(bridge(), alice(), 1_000_000);
    s.burn(alice(), alice(), 300_000);
    assert_eq!(s.balance_of(&alice()), 700_000);
}

#[test]
fn lib_test_transfer() {
    let mut s = setup();
    s.mint(bridge(), alice(), 1_000_000);
    s.transfer(alice(), bob(), 400_000);
    assert_eq!(s.balance_of(&alice()), 600_000);
    assert_eq!(s.balance_of(&bob()), 400_000);
}

#[test]
fn lib_test_approve_and_transfer_from() {
    let mut s = setup();
    s.mint(bridge(), alice(), 1_000_000);
    s.approve(alice(), bob(), 500_000);
    assert_eq!(s.allowance(&alice(), &bob()), 500_000);
    s.transfer_from(bob(), alice(), bob(), 300_000);
    assert_eq!(s.balance_of(&alice()), 700_000);
    assert_eq!(s.balance_of(&bob()), 300_000);
    assert_eq!(s.allowance(&alice(), &bob()), 200_000);
}

#[test]
fn test_blacklist() {
    let mut s = setup();
    s.mint(bridge(), alice(), 1_000_000);
    s.blacklist(owner(), alice());
    assert!(s.is_blacklisted(&alice()));
}

#[test]
fn lib_test_ownership_transfer_usdc() {
    let mut s = BridgedUsdcState::new(owner());
    let new_owner = [99u8; 32];
    s.transfer_ownership(owner(), new_owner);
    assert_eq!(s.owner, new_owner);
    // New owner can set bridge
    s.set_bridge_address(new_owner, bridge());
    assert_eq!(s.bridge_address, Some(bridge()));
}

#[test]
fn test_lock_bridge() {
    let mut s = setup();
    s.lock_bridge_address(owner());
    assert!(s.bridge_locked);
}

