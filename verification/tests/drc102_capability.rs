use dina::drc102_capability::{Capability, CapabilityRegistryState, CapabilityStatus, PricingModel};
use dina::keymap::KeyMap;

fn admin() -> [u8; 32] {
    [1u8; 32]
}
fn device_a() -> [u8; 32] {
    [2u8; 32]
}
fn device_b() -> [u8; 32] {
    [3u8; 32]
}

fn cap(kind: &str, pricing: PricingModel) -> Capability {
    let mut metadata = KeyMap::new();
    metadata.insert("region".to_string(), "eu".to_string());
    Capability {
        capability_type: kind.to_string(),
        version: "1.0".to_string(),
        status: CapabilityStatus::Online,
        pricing,
        metadata,
        registered_at: 100,
        last_updated: 100,
    }
}

#[test]
fn test_register_and_find() {
    let mut s = CapabilityRegistryState::new(admin());
    s.register_capabilities(device_a(), device_a(), vec![cap("gpu", PricingModel::PerCall(5)), cap("storage", PricingModel::Free)]);
    s.register_capabilities(device_b(), device_b(), vec![cap("gpu", PricingModel::PerMinute(2))]);

    let found = s.find_by_capability("gpu");
    assert_eq!(found.len(), 2);
    assert_eq!(found[0].0, device_a());
    assert_eq!(found[1].0, device_b());
    assert_eq!(found[0].1.len(), 1);
    assert!(matches!(found[1].1[0].pricing, PricingModel::PerMinute(2)));

    let storage = s.find_by_capability("storage");
    assert_eq!(storage.len(), 1);
    assert_eq!(storage[0].0, device_a());
    assert!(s.find_by_capability("camera").is_empty());
}

#[test]
fn test_registering_twice_lists_device_once() {
    let mut s = CapabilityRegistryState::new(admin());
    s.register_capabilities(device_a(), device_a(), vec![cap("gpu", PricingModel::Free)]);
    s.register_capabilities(device_a(), device_a(), vec![cap("gpu", PricingModel::Negotiable)]);
    let found = s.find_by_capability("gpu");
    assert_eq!(found.len(), 1);
    assert_eq!(found[0].1.len(), 2);
    assert_eq!(s.capabilities_of(&device_a()).len(), 2);
}

#[test]
fn test_has_capability_and_capabilities_of() {
    let mut s = CapabilityRegistryState::new(admin());
    s.register_capabilities(device_a(), device_a(), vec![cap("gpu", PricingModel::Free)]);
    assert!(s.has_capability(&device_a(), "gpu"));
    assert!(!s.has_capability(&device_a(), "storage"));
    assert!(!s.has_capability(&device_b(), "gpu"));
    assert!(s.capabilities_of(&device_b()).is_empty());
    assert_eq!(s.capabilities_of(&device_a())[0].version, "1.0");
}

#[test]
fn test_update_status_changes_matching_only() {
    let mut s = CapabilityRegistryState::new(admin());
    s.register_capabilities(device_a(), device_a(), vec![cap("gpu", PricingModel::Free), cap("storage", PricingModel::Free)]);
    s.update_status(device_a(), device_a(), "gpu".to_string(), CapabilityStatus::Busy, 200);
    let caps = s.capabilities_of(&device_a());
    assert_eq!(caps[0].status, CapabilityStatus::Busy);
    assert_eq!(caps[0].last_updated, 200);
    assert_eq!(caps[1].status, CapabilityStatus::Online);
    assert_eq!(caps[1].last_updated, 100);
}

#[test]
fn test_set_pricing_per_unit() {
    let mut s = CapabilityRegistryState::new(admin());
    s.register_capabilities(device_a(), device_a(), vec![cap("storage", PricingModel::Free)]);
    s.set_pricing(device_a(), device_a(), "storage".to_string(), PricingModel::PerUnit(7, "GB".to_string()), 300);
    let caps = s.capabilities_of(&device_a());
    match &caps[0].pricing {
        PricingModel::PerUnit(p, unit) => {
            assert_eq!(*p, 7);
            assert_eq!(unit, "GB");
        }
        _ => panic!("pricing not set"),
    }
    assert_eq!(caps[0].last_updated, 300);
}

#[test]
fn test_pricing_duplicate_keeps_unit() {
    let p = PricingModel::PerUnit(3, "kWh".to_string());
    match p.duplicate() {
        PricingModel::PerUnit(n, unit) => {
            assert_eq!(n, 3);
            assert_eq!(unit, "kWh");
        }
        _ => panic!("variant changed"),
    }
}

fn addr(seed: u8) -> [u8; 32] {
    [seed; 32]
}

fn init() -> CapabilityRegistryState {
    CapabilityRegistryState::new(addr(1))
}

fn make_cap(cap_type: &str) -> Capability {
    Capability {
        capability_type: cap_type.to_string(),
        version: "1.0".to_string(),
        status: CapabilityStatus::Online,
        pricing: PricingModel::Free,
        metadata: KeyMap::new(),
        registered_at: 1000,
        last_updated: 1000,
    }
}

fn register_cap(state: &mut CapabilityRegistryState, device: [u8; 32], cap_type: &str) {
    state.register_capabilities(addr(2), device, vec![make_cap(cap_type)]);
}

#[test]
fn register_capabilities_succeeds() {
    let mut state = init();
    register_cap(&mut state, addr(10), "compute");
    assert!(state.has_capability(&addr(10), "compute"));
}

#[test]
fn find_by_capability_returns_matching_devices() {
    let mut state = init();
    register_cap(&mut state, addr(10), "compute");
    register_cap(&mut state, addr(11), "compute");
    register_cap(&mut state, addr(12), "storage");
    let found = state.find_by_capability("compute");
    assert_eq!(found.len(), 2);
}

#[test]
fn find_by_capability_returns_empty_for_unknown() {
    let state = init();
    let found = state.find_by_capability("nonexistent");
    assert_eq!(found.len(), 0);
}

#[test]
fn update_status_changes_capability_status() {
    let mut state = init();
    register_cap(&mut state, addr(10), "compute");
    state.update_status(addr(2), addr(10), "compute".to_string(), CapabilityStatus::Offline, 2000);
    let caps = state.capabilities_of(&addr(10));
    assert_eq!(caps[0].status, CapabilityStatus::Offline);
}

#[test]
fn has_capability_returns_false_for_unknown_device() {
    let state = init();
    assert!(!state.has_capability(&addr(99), "compute"));
}

#[test]
fn capabilities_of_returns_all_for_device() {
    let mut state = init();
    register_cap(&mut state, addr(10), "compute");
    register_cap(&mut state, addr(10), "storage");
    let caps = state.capabilities_of(&addr(10));
    assert_eq!(caps.len(), 2);
}
