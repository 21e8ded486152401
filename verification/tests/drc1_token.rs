use dina::drc1_token::TokenState;

fn addr(seed: u8) -> [u8; 32] {
    [seed; 32]
}

fn init_token(owner: [u8; 32]) -> TokenState {
    TokenState::new("DinaToken".to_string(), "DINA".to_string(), 18, owner)
}

fn init_and_mint(owner: [u8; 32], amount: u64) -> TokenState {
    let mut s = init_token(owner);
    s.mint(owner, owner, amount);
    s
}

#[test]
fn initialize_token_with_name_symbol_decimals_supply() {
    let owner = addr(1);
    let s = init_token(owner);
    assert_eq!(s.name(), "DinaToken");
    assert_eq!(s.symbol(), "DINA");
    assert_eq!(s.decimals(), 18);
    assert_eq!(s.total_supply(), 0);
    assert_eq!(s.balance_of(&owner), 0);
}

#[test]
fn balance_of_returns_correct_balance_for_creator() {
    let owner = addr(1);
    let s = init_and_mint(owner, 1_000_000);
    assert_eq!(s.balance_of(&owner), 1_000_000);
    assert_eq!(s.total_supply(), 1_000_000);
}

#[test]
fn balance_of_returns_zero_for_unknown_account() {
    let owner = addr(1);
    let s = init_token(owner);
    let unknown = addr(99);
    assert_eq!(s.balance_of(&unknown), 0);
}

#[test]
fn transfer_succeeds_with_sufficient_balance() {
    let owner = addr(1);
    let recipient = addr(2);
    let mut s = init_and_mint(owner, 1000);
    s.transfer(owner, recipient, 400);
    assert_eq!(s.balance_of(&owner), 600);
    assert_eq!(s.balance_of(&recipient), 400);
    assert_eq!(s.total_supply(), 1000);
}

#[test]
fn approve_and_allowance_roundtrip() {
    let owner = addr(1);
    let spender = addr(2);
    let mut s = init_token(owner);
    s.approve(owner, spender, 500);
    assert_eq!(s.allowance(&owner, &spender), 500);
}

#[test]
fn transfer_from_with_approval_works() {
    let owner = addr(1);
    let spender = addr(2);
    let recipient = addr(3);
    let mut s = init_and_mint(owner, 1000);
    s.approve(owner, spender, 500);
    s.transfer_from(spender, owner, recipient, 300);
    assert_eq!(s.balance_of(&owner), 700);
    assert_eq!(s.balance_of(&recipient), 300);
    assert_eq!(s.allowance(&owner, &spender), 200);
}

#[test]
fn mint_increases_supply_owner_only() {
    let owner = addr(1);
    let recipient = addr(2);
    let mut s = init_token(owner);
    s.mint(owner, recipient, 5000);
    assert_eq!(s.balance_of(&recipient), 5000);
    assert_eq!(s.total_supply(), 5000);
}

#[test]
fn token_transfer_to_self_keeps_balance() {
    let owner = addr(1);
    let mut s = init_and_mint(owner, 1000);
    s.transfer(owner, owner, 250);
    assert_eq!(s.balance_of(&owner), 1000);
    assert_eq!(s.total_supply(), 1000);
}

#[test]
fn token_burn_lowers_balance_and_supply() {
    let owner = addr(1);
    let mut s = init_and_mint(owner, 1000);
    s.burn(owner, 300);
    assert_eq!(s.balance_of(&owner), 700);
    assert_eq!(s.total_supply(), 700);
}

#[test]
fn token_allowance_increase_and_decrease() {
    let owner = addr(1);
    let spender = addr(2);
    let mut s = init_token(owner);
    s.increase_allowance(owner, spender, 100);
    s.increase_allowance(owner, spender, 50);
    assert_eq!(s.allowance(&owner, &spender), 150);
    s.decrease_allowance(owner, spender, 120);
    assert_eq!(s.allowance(&owner, &spender), 30);
}
