use dina::dev_multicall::{Call, MulticallState};

const OWNER: &str = "owner_addr";

fn make_call(target: &str, method: &str, value: u64) -> Call {
    Call { target: target.to_string(), method: method.to_string(), args: vec![], value }
}

fn init() -> MulticallState {
    MulticallState::new(OWNER.to_string())
}

#[test]
fn test_batch_three_calls() {
    let mut state = init();
    let calls = vec![make_call("token", "transfer", 100), make_call("nft", "mint", 0), make_call("vault", "deposit", 500)];
    let results = state.multicall(&calls);
    assert_eq!(results.len(), 3);
    assert!(results.iter().all(|r| r.success));
    assert_eq!(state.total_calls_executed, 3);
}

#[test]
fn test_try_multicall_handles_failures() {
    let mut state = init();
    let calls = vec![
        make_call("token", "transfer", 100),
        Call {
            target: "bad".to_string(),
            method: "".to_string(), // empty method triggers failure
            args: vec![],
            value: 0,
        },
        make_call("vault", "deposit", 500),
    ];
    let results = state.try_multicall(&calls);
    assert_eq!(results.len(), 3);
    assert!(results[0].success);
    assert!(!results[1].success);
    assert!(results[2].success);
    // Only 2 successful calls counted
    assert_eq!(state.total_calls_executed, 2);
}

#[test]
fn test_multicall_with_value() {
    let mut state = init();
    let calls = vec![make_call("token", "transfer", 0), make_call("vault", "deposit", 0)];
    let values = vec![100, 500];
    let results = state.multicall_with_value(&calls, &values);
    assert_eq!(results.len(), 2);
    assert!(results.iter().all(|r| r.success));
    // Check value was included in return data
    let data: String = serde_json::from_slice(&results[1].return_data).unwrap();
    assert!(data.contains("value=500"));
}

#[test]
fn test_total_calls_counter() {
    let mut state = init();
    state.multicall(&[make_call("a", "b", 0), make_call("c", "d", 0)]);
    assert_eq!(state.total_calls_executed, 2);
    // Another batch
    state.multicall(&[make_call("e", "f", 0)]);
    assert_eq!(state.total_calls_executed, 3);
}

#[test]
fn test_return_data_is_json_of_record() {
    let mut state = init();
    let results = state.multicall(&[make_call("token", "transfer", 0)]);
    assert_eq!(results[0].return_data, b"\"executed:token:transfer\"".to_vec());
    let failed = state.try_multicall(&[make_call("x", "", 0)]);
    assert_eq!(failed[0].return_data, b"error: empty method".to_vec());
    let valued = state.multicall_with_value(&[make_call("v", "d", 0)], &[42]);
    assert_eq!(valued[0].return_data, b"\"executed:v:d:value=42\"".to_vec());
}

#[test]
fn test_json_escapes_quotes_in_record() {
    let mut state = init();
    let results = state.multicall(&[make_call("a\"b", "m", 0)]);
    let data: String = serde_json::from_slice(&results[0].return_data).unwrap();
    assert_eq!(data, "executed:a\"b:m");
    assert_ne!(results[0].return_data, b"executed:a\"b:m".to_vec());
}

#[test]
fn test_return_data_escapes_as_json() {
    let mut state = init();
    let calls = vec![make_call("t\"q\\b", "m\n\u{1}é", 0)];
    let results = state.multicall(&calls);
    let expected: Vec<u8> = b"\"executed:t\\\"q\\\\b:m\\n\\u0001\xc3\xa9\"".to_vec();
    assert_eq!(results[0].return_data, expected);
}
