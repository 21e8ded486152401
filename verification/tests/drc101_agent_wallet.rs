use dina::drc101_agent_wallet::{AgentWalletState, SpendingLimits, TransferRefusal};

// ============================================================
// Helpers
// ============================================================

fn addr(seed: u8) -> [u8; 32] {
    [seed; 32]
}

fn create_wallet_with_limits(
    owner: [u8; 32],
    balance: u64,
    max_per_tx: u64,
    max_per_day: u64,
) -> AgentWalletState {
    let mut wallet = AgentWalletState::new(owner);
    wallet.deposit(balance);
    wallet.set_limits(
        owner,
        SpendingLimits {
            max_per_transaction: max_per_tx,
            max_per_day,
            max_per_month: u64::MAX,
            max_transactions_per_day: u32::MAX,
            min_interval_ms: 0,
        },
    );
    wallet
}

// ============================================================
// Create wallet with spending limits
// ============================================================

#[test]
fn create_wallet_with_spending_limits() {
    let owner = addr(1);
    let mut wallet = AgentWalletState::new(owner);

    wallet.set_limits(
        owner,
        SpendingLimits {
            max_per_transaction: 1000,
            max_per_day: 5000,
            max_per_month: 20000,
            max_transactions_per_day: 10,
            min_interval_ms: 60_000,
        },
    );

    assert_eq!(wallet.rules.limits.max_per_transaction, 1000);
    assert_eq!(wallet.rules.limits.max_per_day, 5000);
    assert_eq!(wallet.rules.limits.max_per_month, 20000);
    assert_eq!(wallet.rules.limits.max_transactions_per_day, 10);
    assert_eq!(wallet.rules.limits.min_interval_ms, 60_000);
    assert!(!wallet.frozen);
    assert_eq!(wallet.balance, 0);
}

// ============================================================
// execute_transfer within limits succeeds
// ============================================================

#[test]
fn execute_transfer_within_limits_succeeds() {
    let owner = addr(1);
    let recipient = addr(2);
    let mut wallet = create_wallet_with_limits(owner, 10_000, 5000, 50_000);

    wallet.execute_transfer(
        owner,
        recipient,
        1000,
        100_000, // timestamp
        1,       // day
        1,       // month
        "test payment".to_string(),
        None,
    );

    assert_eq!(wallet.balance, 9000);
    assert_eq!(wallet.stats.total_spent, 1000);
    assert_eq!(wallet.stats.spent_today, 1000);
    assert_eq!(wallet.transaction_log.len(), 1);
}

// ============================================================
// execute_transfer exceeding per-transaction limit fails
// ============================================================

#[test]
fn emergency_stop_freezes_wallet() {
    let owner = addr(1);
    let mut wallet = AgentWalletState::new(owner);
    wallet.deposit(1000);

    assert!(!wallet.frozen);
    wallet.emergency_stop(owner);
    assert!(wallet.frozen);
}

#[test]
fn resume_unfreezes_wallet() {
    let owner = addr(1);
    let recipient = addr(2);
    let mut wallet = AgentWalletState::new(owner);
    wallet.deposit(1000);

    wallet.emergency_stop(owner);
    assert!(wallet.frozen);

    wallet.resume(owner);
    assert!(!wallet.frozen);

    // Can transfer again after resume
    wallet.execute_transfer(
        owner, recipient, 100, 100_000, 1, 1,
        "after resume".to_string(), None,
    );
    assert_eq!(wallet.balance, 900);
}

// ============================================================
// Only owner can emergency_stop
// ============================================================

#[test]
fn guardian_can_emergency_stop() {
    let owner = addr(1);
    let guardian = addr(2);
    let mut wallet = AgentWalletState::new(owner);
    wallet.rules.guardian = Some(guardian);

    wallet.emergency_stop(guardian);
    assert!(wallet.frozen);
}

#[test]
fn approved_counterparty_enforcement_works() {
    let owner = addr(1);
    let approved = addr(2);
    let mut wallet = AgentWalletState::new(owner);
    wallet.deposit(5000);

    // Add approved counterparty
    wallet.add_approved_counterparty(owner, approved);

    // Transfer to approved counterparty succeeds
    wallet.execute_transfer(
        owner, approved, 100, 100_000, 1, 1,
        "approved".to_string(), None,
    );
    assert_eq!(wallet.balance, 4900);
}

#[test]
fn empty_counterparty_list_allows_any_recipient() {
    let owner = addr(1);
    let anyone = addr(99);
    let mut wallet = AgentWalletState::new(owner);
    wallet.deposit(5000);

    // No approved counterparties = no restriction
    wallet.execute_transfer(
        owner, anyone, 100, 100_000, 1, 1,
        "open".to_string(), None,
    );
    assert_eq!(wallet.balance, 4900);
}

#[test]
fn agent_execute_call_records_call_memo() {
    let owner = addr(1);
    let target = addr(5);
    let mut wallet = AgentWalletState::new(owner);
    wallet.deposit(500);
    wallet.execute_call(owner, target, 200, 10, 1, 1, "stake".to_string(), None);
    assert_eq!(wallet.balance, 300);
    assert_eq!(wallet.transaction_log[0].memo, "call:stake");
    assert_eq!(wallet.transaction_log[0].to, target);
}

#[test]
fn agent_daily_counters_reset_on_new_day() {
    let owner = addr(1);
    let to = addr(2);
    let mut wallet = create_wallet_with_limits(owner, 10_000, 5000, 1000);
    wallet.execute_transfer(owner, to, 800, 100, 1, 1, "a".to_string(), None);
    wallet.execute_transfer(owner, to, 900, 200, 2, 1, "b".to_string(), None);
    assert_eq!(wallet.stats.spent_today, 900);
    assert_eq!(wallet.stats.spent_this_month, 1700);
    assert_eq!(wallet.stats.transactions_today, 1);
    assert_eq!(wallet.stats.current_day, 2);
    assert_eq!(wallet.stats.total_spent, 1700);
}

#[test]
fn agent_remove_counterparty_keeps_others() {
    let owner = addr(1);
    let mut wallet = AgentWalletState::new(owner);
    wallet.add_approved_counterparty(owner, addr(2));
    wallet.add_approved_counterparty(owner, addr(3));
    wallet.add_approved_counterparty(owner, addr(2));
    assert_eq!(wallet.rules.approved_counterparties, vec![addr(2), addr(3)]);
    wallet.remove_approved_counterparty(owner, addr(2));
    assert_eq!(wallet.rules.approved_counterparties, vec![addr(3)]);
}

#[test]
fn test_transfer_refusal_names_the_first_rule() {
    let owner = addr(1);
    let mut wallet = create_wallet_with_limits(owner, 10_000, 1_000, 1_500);
    let to = addr(2);
    assert_eq!(wallet.transfer_refusal(owner, to, 500, 1, 1, 1, None), None);
    assert_eq!(wallet.transfer_refusal(addr(9), to, 500, 1, 1, 1, None), Some(TransferRefusal::NotAuthorised));
    assert_eq!(wallet.transfer_refusal(owner, to, 1_001, 1, 1, 1, None), Some(TransferRefusal::ExceedsPerTransaction));
    wallet.execute_transfer(owner, to, 1_000, 1, 1, 1, "a".to_string(), None);
    assert_eq!(wallet.transfer_refusal(owner, to, 600, 2, 1, 1, None), Some(TransferRefusal::ExceedsDaily));
    assert_eq!(wallet.transfer_refusal(owner, to, 600, 2, 2, 1, None), None);
    assert_eq!(wallet.transfer_refusal(owner, to, 20_000, 2, 2, 1, None), Some(TransferRefusal::ExceedsPerTransaction));
    wallet.emergency_stop(owner);
    assert_eq!(wallet.transfer_refusal(owner, to, 1, 2, 2, 1, None), Some(TransferRefusal::Frozen));
}
