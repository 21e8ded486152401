use dina::drc10_royalties::RoyaltyRegistry;

fn addr(seed: u8) -> [u8; 32] {
    [seed; 32]
}

fn register_and_set(s: &mut RoyaltyRegistry, creator: [u8; 32], token_id: u64, recipient: [u8; 32], bp: u16) {
    s.register_creator(creator, token_id);
    s.set_royalty(creator, token_id, recipient, bp);
}

#[test]
fn set_royalty_stores_info() {
    let mut s = RoyaltyRegistry::new(addr(1));
    register_and_set(&mut s, addr(2), 1, addr(3), 500);
    let info = s.get_royalty(1);
    assert!(info.is_some());
    assert_eq!(info.unwrap().basis_points, 500);
    assert_eq!(info.unwrap().recipient, addr(3));
}

#[test]
fn royalty_info_calculates_correctly() {
    let mut s = RoyaltyRegistry::new(addr(1));
    register_and_set(&mut s, addr(2), 1, addr(3), 1000);
    let (recipient, amount) = s.royalty_info(1, 10000);
    assert_eq!(recipient, addr(3));
    assert_eq!(amount, 1000);
}

#[test]
fn royalty_info_with_250_basis_points() {
    let mut s = RoyaltyRegistry::new(addr(1));
    register_and_set(&mut s, addr(2), 1, addr(3), 250);
    let (_recipient, amount) = s.royalty_info(1, 20000);
    assert_eq!(amount, 500);
}

#[test]
fn royalty_zero_sale_price_returns_zero() {
    let mut s = RoyaltyRegistry::new(addr(1));
    register_and_set(&mut s, addr(2), 1, addr(3), 1000);
    let (_recipient, amount) = s.royalty_info(1, 0);
    assert_eq!(amount, 0);
}

#[test]
fn royalty_full_rate_on_max_price_is_whole_price() {
    let mut s = RoyaltyRegistry::new(addr(1));
    register_and_set(&mut s, addr(2), 7, addr(3), 10000);
    let (_recipient, amount) = s.royalty_info(7, u64::MAX);
    assert_eq!(amount, u64::MAX);
    assert!(s.get_royalty(8).is_none());
}
