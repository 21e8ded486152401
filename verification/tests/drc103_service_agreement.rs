use dina::drc103_service_agreement::{AgreementStatus, AgreementTerms, ServiceAgreementState};

fn addr(seed: u8) -> [u8; 32] {
    [seed; 32]
}

fn terms(client: [u8; 32], provider: [u8; 32], amount: u64) -> AgreementTerms {
    AgreementTerms {
        client,
        provider,
        description: "Test service".to_string(),
        amount,
        deliverables: vec!["item1".to_string()],
        deadline: 5000,
        auto_confirm_after: 3600,
    }
}

fn propose(s: &mut ServiceAgreementState, client: [u8; 32], provider: [u8; 32], amount: u64) -> u64 {
    s.propose(client, terms(client, provider, amount), 1000, 10000)
}

#[test]
fn propose_creates_agreement() {
    let mut s = ServiceAgreementState::new();
    let id = propose(&mut s, addr(2), addr(3), 500);
    assert_eq!(id, 1);
    let ag = s.get_agreement(id).unwrap();
    assert_eq!(ag.status, AgreementStatus::Proposed);
    assert_eq!(s.escrow_balances.get_or_zero(&addr(2)), 500);
}

#[test]
fn accept_transitions_to_active() {
    let mut s = ServiceAgreementState::new();
    let id = propose(&mut s, addr(2), addr(3), 500);
    s.accept(addr(3), id);
    assert_eq!(s.get_agreement(id).unwrap().status, AgreementStatus::Active);
}

#[test]
fn deliver_transitions_to_delivered() {
    let mut s = ServiceAgreementState::new();
    let id = propose(&mut s, addr(2), addr(3), 500);
    s.accept(addr(3), id);
    s.deliver(addr(3), id, "done".to_string(), 2000);
    let ag = s.get_agreement(id).unwrap();
    assert_eq!(ag.status, AgreementStatus::Delivered);
    assert_eq!(ag.delivered_at, Some(2000));
}

#[test]
fn confirm_completes_and_returns_payout() {
    let mut s = ServiceAgreementState::new();
    let id = propose(&mut s, addr(2), addr(3), 500);
    s.accept(addr(3), id);
    s.deliver(addr(3), id, "done".to_string(), 2000);
    let (payout, provider) = s.confirm(addr(2), id, 3000);
    assert_eq!(payout, 500);
    assert_eq!(provider, addr(3));
    assert_eq!(s.escrow_balances.get_or_zero(&addr(2)), 0);
}

#[test]
fn full_lifecycle_propose_accept_deliver_confirm() {
    let mut s = ServiceAgreementState::new();
    let id = propose(&mut s, addr(2), addr(3), 1000);
    s.accept(addr(3), id);
    s.deliver(addr(3), id, "proof".to_string(), 2000);
    s.confirm(addr(2), id, 3000);
    assert_eq!(s.get_agreement(id).unwrap().status, AgreementStatus::Completed);
}

#[test]
fn cancel_returns_escrow() {
    let mut s = ServiceAgreementState::new();
    let id = propose(&mut s, addr(2), addr(3), 500);
    let refund = s.cancel(addr(2), id);
    assert_eq!(refund, 500);
    assert_eq!(s.get_agreement(id).unwrap().status, AgreementStatus::Cancelled);
}

#[test]
fn dispute_transitions_to_disputed() {
    let mut s = ServiceAgreementState::new();
    let id = propose(&mut s, addr(2), addr(3), 500);
    s.accept(addr(3), id);
    s.dispute(addr(2), id, "bad quality".to_string());
    assert_eq!(s.get_agreement(id).unwrap().status, AgreementStatus::Disputed);
}

#[test]
fn agreement_auto_confirm_waits_for_period() {
    let mut s = ServiceAgreementState::new();
    let a = propose(&mut s, addr(2), addr(3), 300);
    let b = propose(&mut s, addr(2), addr(4), 200);
    assert_eq!(b, 2);
    assert_eq!(s.escrow_balances.get_or_zero(&addr(2)), 500);
    s.accept(addr(3), a);
    s.deliver(addr(3), a, "p".to_string(), 2000);
    assert_eq!(s.auto_confirm(a, 5599), None);
    assert_eq!(s.auto_confirm(b, 9999), None);
    assert_eq!(s.auto_confirm(a, 5600), Some((300, addr(3))));
    assert_eq!(s.escrow_balances.get_or_zero(&addr(2)), 200);
}
