use dina::dev_events::EventIndexState;

const TOKEN_CONTRACT: &str = "token_contract";
const NFT_CONTRACT: &str = "nft_contract";
const ALICE: &str = "alice_addr";

fn init() -> EventIndexState {
    EventIndexState::new()
}

fn emit_event(state: &mut EventIndexState, caller: &str, topic: &str, data: &[u8], block: u64, ts: u64) -> u64 {
    state.emit(caller, topic.to_string(), data.to_vec(), block, ts)
}

#[test]
fn test_emit_and_query_by_topic() {
    let mut state = init();
    emit_event(&mut state, TOKEN_CONTRACT, "Transfer", b"tx1", 100, 1000);
    emit_event(&mut state, TOKEN_CONTRACT, "Transfer", b"tx2", 101, 1001);
    emit_event(&mut state, TOKEN_CONTRACT, "Approval", b"ap1", 102, 1002);

    let events = state.get_events("Transfer", 1, 10);
    assert_eq!(events.len(), 2);
    assert_eq!(events[0].data, b"tx1");
    assert_eq!(events[1].data, b"tx2");
}

#[test]
fn test_query_by_emitter() {
    let mut state = init();
    emit_event(&mut state, TOKEN_CONTRACT, "Transfer", b"t1", 100, 1000);
    emit_event(&mut state, NFT_CONTRACT, "Transfer", b"n1", 101, 1001);
    emit_event(&mut state, TOKEN_CONTRACT, "Transfer", b"t2", 102, 1002);

    let events = state.get_events_by_emitter(TOKEN_CONTRACT, 1, 10);
    assert_eq!(events.len(), 2);
    assert!(events.iter().all(|e| e.emitter == TOKEN_CONTRACT));
}

#[test]
fn test_subscribe() {
    let mut state = init();
    state.subscribe("Transfer".to_string(), ALICE.to_string());
    state.subscribe("Transfer".to_string(), TOKEN_CONTRACT.to_string());
    // Duplicate subscribe should not add twice
    state.subscribe("Transfer".to_string(), ALICE.to_string());

    let subs = state.get_subscribers("Transfer");
    assert_eq!(subs.len(), 2);
    assert!(subs.contains(&ALICE));
}

#[test]
fn test_get_latest_events() {
    let mut state = init();
    for i in 0..10u64 {
        emit_event(&mut state, TOKEN_CONTRACT, "Transfer", &[i as u8], 100 + i, 1000 + i);
    }
    let events = state.get_latest_events(3);
    assert_eq!(events.len(), 3);
    // Should be the last 3 events (ids 8, 9, 10)
    assert_eq!(events[0].id, 8);
    assert_eq!(events[2].id, 10);
}

#[test]
fn test_event_count() {
    let mut state = init();
    emit_event(&mut state, TOKEN_CONTRACT, "Transfer", b"t1", 100, 1000);
    emit_event(&mut state, NFT_CONTRACT, "Mint", b"m1", 101, 1001);
    assert_eq!(state.event_count(), 2);
}

#[test]
fn test_from_id_filtering() {
    let mut state = init();
    emit_event(&mut state, TOKEN_CONTRACT, "Transfer", b"old", 100, 1000);
    emit_event(&mut state, TOKEN_CONTRACT, "Transfer", b"mid", 101, 1001);
    emit_event(&mut state, TOKEN_CONTRACT, "Transfer", b"new", 102, 1002);

    // Only events with id >= 3
    let events = state.get_events("Transfer", 3, 10);
    assert_eq!(events.len(), 1);
    assert_eq!(events[0].data, b"new");
}

#[test]
fn test_limit_keeps_first_matches() {
    let mut state = init();
    for i in 0..5u64 {
        emit_event(&mut state, TOKEN_CONTRACT, "Transfer", &[i as u8], 100, 1000);
    }
    let events = state.get_events("Transfer", 2, 2);
    assert_eq!(events.len(), 2);
    assert_eq!(events[0].id, 2);
    assert_eq!(events[1].id, 3);
    assert!(state.get_events("Transfer", 1, 0).is_empty());
}

#[test]
fn test_latest_with_large_limit_returns_all() {
    let mut state = init();
    emit_event(&mut state, TOKEN_CONTRACT, "Transfer", b"a", 1, 1);
    emit_event(&mut state, TOKEN_CONTRACT, "Transfer", b"b", 2, 2);
    let events = state.get_latest_events(10);
    assert_eq!(events.len(), 2);
    assert_eq!(events[0].id, 1);
    assert!(state.get_subscribers("none").is_empty());
}
