use dina::dev_timelock::TimelockState;

const ADMIN: &str = "admin_addr";
const MIN_DELAY: u64 = 3600;

fn init() -> TimelockState {
    TimelockState::new(ADMIN.to_string(), MIN_DELAY)
}

fn queue(state: &mut TimelockState, delay: u64, current_time: u64) -> String {
    state.queue_operation(ADMIN, "token_contract".to_string(), "transfer".to_string(), vec![1, 2, 3], 1000, delay, current_time)
}

#[test]
fn test_queue_and_execute() {
    let mut state = init();
    let op_id = queue(&mut state, MIN_DELAY, 1000);
    assert_eq!(op_id, "op_1");

    // Execute after eta
    state.execute_operation(ADMIN, &op_id, 1000 + MIN_DELAY);
    let op = state.queued_ops.get(&op_id).unwrap();
    assert!(op.executed);
}

#[test]
fn test_cancel_operation() {
    let mut state = init();
    let op_id = queue(&mut state, MIN_DELAY, 1000);
    state.cancel_operation(ADMIN, &op_id);
    assert!(state.queued_ops.get(&op_id).unwrap().cancelled);
}

#[test]
fn test_set_min_delay() {
    let mut state = init();
    state.set_min_delay(ADMIN, 7200);
    assert_eq!(state.min_delay, 7200);
}

#[test]
fn test_get_operation() {
    let mut state = init();
    let op_id = queue(&mut state, MIN_DELAY, 1000);
    let op = state.get_operation(&op_id);
    assert!(op.is_some());
    assert_eq!(op.unwrap().value, 1000);
}

#[test]
fn test_ids_count_up_and_execute_returns_operation() {
    let mut state = init();
    let first = queue(&mut state, MIN_DELAY, 1000);
    let second = queue(&mut state, MIN_DELAY + 10, 1000);
    assert_eq!(first, "op_1");
    assert_eq!(second, "op_2");
    let op = state.execute_operation(ADMIN, &second, 1000 + MIN_DELAY + 10);
    assert!(op.executed);
    assert_eq!(op.eta, 1000 + MIN_DELAY + 10);
    assert!(!state.get_operation(&first).unwrap().executed);
    assert!(state.get_operation("op_3").is_none());
}
