use dina::dev_factory::FactoryState;

const OWNER: &str = "owner_addr";
const ALICE: &str = "alice_addr";
const BOB: &str = "bob_addr";

fn init() -> FactoryState {
    FactoryState::new(OWNER.to_string())
}

fn register(state: &mut FactoryState, name: &str) {
    // WASM magic bytes
    state.register_template(OWNER, name.to_string(), vec![0x00, 0x61, 0x73, 0x6d]);
}

#[test]
fn test_register_and_deploy() {
    let mut state = init();
    register(&mut state, "erc20");
    let address = state.deploy_from_template(ALICE, "erc20", b"init_data".to_vec(), 1000);
    assert!(address.contains("erc20"));
    assert_eq!(state.deploy_count, 1);
}

#[test]
fn test_multiple_deploys() {
    let mut state = init();
    register(&mut state, "token");
    for i in 0..3u64 {
        state.deploy_from_template(ALICE, "token", vec![i as u8], 1000 + i);
    }
    assert_eq!(state.get_deploy_count(), 3);
}

#[test]
fn test_get_deployed() {
    let mut state = init();
    register(&mut state, "nft");
    state.deploy_from_template(BOB, "nft", b"my_nft".to_vec(), 2000);
    let d = state.get_deployed(0).unwrap();
    assert_eq!(d.template, "nft");
    assert_eq!(d.deployer, BOB);
    assert_eq!(d.timestamp, 2000);
    assert!(state.get_deployed(1).is_none());
}

#[test]
fn test_template_count() {
    let mut state = init();
    register(&mut state, "token");
    register(&mut state, "nft");
    register(&mut state, "vault");
    assert_eq!(state.get_template_count(), 3);
}

#[test]
fn test_has_template() {
    let mut state = init();
    register(&mut state, "token");
    assert!(state.has_template("token"));
    assert!(!state.has_template("missing"));
}

#[test]
fn test_address_format_matches_format_macro() {
    let mut state = init();
    register(&mut state, "erc20");
    let first = state.deploy_from_template(ALICE, "erc20", vec![], 1000);
    assert_eq!(first, format!("dina1_factory_{}_{}_{:016x}", "erc20", 1, 1000u64));
    assert_eq!(first, "dina1_factory_erc20_1_00000000000003e8");
    let second = state.deploy_from_template(ALICE, "erc20", vec![], u64::MAX);
    assert_eq!(second, "dina1_factory_erc20_2_ffffffffffffffff");
    assert_ne!(first, second);
}

#[test]
fn test_decimal_of_large_count() {
    let mut s = String::new();
    dina::text::push_decimal(&mut s, 1234567890);
    assert_eq!(s, "1234567890");
    let mut z = String::new();
    dina::text::push_decimal(&mut z, 0);
    assert_eq!(z, "0");
}

#[test]
fn test_reregistering_replaces_code() {
    let mut state = init();
    register(&mut state, "token");
    state.register_template(OWNER, "token".to_string(), vec![9]);
    assert_eq!(state.get_template_count(), 1);
}

#[test]
fn test_underscored_templates_get_distinct_addresses() {
    let mut state = init();
    register(&mut state, "a_1");
    register(&mut state, "a");
    let first = state.deploy_from_template(ALICE, "a_1", vec![], 0);
    let second = state.deploy_from_template(BOB, "a", vec![], 0);
    assert_eq!(first, "dina1_factory_a_1_1_0000000000000000");
    assert_eq!(second, "dina1_factory_a_2_0000000000000000");
    assert_ne!(first, second);
}
