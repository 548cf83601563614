use std::time::{SystemTime, UNIX_EPOCH};

use pulsar::refund_management::{
    RefundError, RefundEventType, RefundService, RefundStatus, EXECUTION_GRACE_PERIOD_SECS,
    REFUND_WINDOW_SECS,
};

fn now_secs() -> u64 {
    SystemTime::now().duration_since(UNIX_EPOCH).unwrap_or_default().as_secs()
}

fn make_service() -> RefundService {
    RefundService::new()
}

fn paid_at() -> u64 {
    now_secs() - 60
}

#[test]
fn test_initiate_success() {
    let mut svc = make_service();
    svc.initiate(
        "R1".into(),
        "O1".into(),
        100,
        "customer request".into(),
        "payer1".into(),
        paid_at(),
        500,
        0,
    )
    .unwrap();
    let r = svc.get_refund("R1").unwrap();
    assert_eq!(r.status, RefundStatus::Pending);
    assert_eq!(svc.audit_log.len(), 1);
    assert_eq!(svc.audit_log[0].event_type, RefundEventType::Initiated);
}

#[test]
fn test_duplicate_refund_id_rejected() {
    let mut svc = make_service();
    svc.initiate("R1".into(), "O1".into(), 100, "r".into(), "p".into(), paid_at(), 500, 0).unwrap();
    let err = svc
        .initiate("R1".into(), "O1".into(), 50, "r".into(), "p".into(), paid_at(), 500, 100)
        .unwrap_err();
    assert_eq!(err, RefundError::RefundAlreadyExists);
}

#[test]
fn test_amount_exceeds_payment() {
    let mut svc = make_service();
    let err = svc
        .initiate("R1".into(), "O1".into(), 600, "r".into(), "p".into(), paid_at(), 500, 0)
        .unwrap_err();
    assert_eq!(err, RefundError::AmountExceedsPayment);
}

#[test]
fn test_refund_window_expired() {
    let mut svc = make_service();
    let old_paid_at = now_secs() - REFUND_WINDOW_SECS - 1;
    let err = svc
        .initiate("R1".into(), "O1".into(), 100, "r".into(), "p".into(), old_paid_at, 500, 0)
        .unwrap_err();
    assert_eq!(err, RefundError::RefundWindowExpired);
}

#[test]
fn test_full_happy_path() {
    let mut svc = make_service();
    svc.initiate("R1".into(), "O1".into(), 100, "r".into(), "payer".into(), paid_at(), 500, 0).unwrap();
    svc.approve("R1", "merchant".into()).unwrap();
    svc.execute("R1", "merchant".into()).unwrap();
    let r = svc.get_refund("R1").unwrap();
    assert_eq!(r.status, RefundStatus::Executed);
    assert!(r.executed_at.is_some());
    assert_eq!(svc.audit_log.len(), 3);
}

#[test]
fn test_reject_flow() {
    let mut svc = make_service();
    svc.initiate("R1".into(), "O1".into(), 100, "r".into(), "payer".into(), paid_at(), 500, 0).unwrap();
    svc.reject("R1", "merchant".into(), Some("policy".into())).unwrap();
    assert_eq!(svc.get_refund("R1").unwrap().status, RefundStatus::Rejected);
}

#[test]
fn test_cancel_flow() {
    let mut svc = make_service();
    svc.initiate("R1".into(), "O1".into(), 100, "r".into(), "payer".into(), paid_at(), 500, 0).unwrap();
    svc.cancel("R1", "payer".into()).unwrap();
    assert_eq!(svc.get_refund("R1").unwrap().status, RefundStatus::Cancelled);
}

#[test]
fn test_invalid_transition_execute_pending() {
    let mut svc = make_service();
    svc.initiate("R1".into(), "O1".into(), 100, "r".into(), "payer".into(), paid_at(), 500, 0).unwrap();
    let err = svc.execute("R1", "merchant".into()).unwrap_err();
    assert!(matches!(err, RefundError::InvalidTransition { .. }));
}

#[test]
fn test_list_by_order() {
    let mut svc = make_service();
    svc.initiate("R1".into(), "O1".into(), 50, "r".into(), "p".into(), paid_at(), 500, 0).unwrap();
    svc.initiate("R2".into(), "O1".into(), 30, "r".into(), "p".into(), paid_at(), 500, 50).unwrap();
    svc.initiate("R3".into(), "O2".into(), 20, "r".into(), "p".into(), paid_at(), 200, 0).unwrap();
    assert_eq!(svc.list_by_order("O1").len(), 2);
    assert_eq!(svc.list_by_order("O2").len(), 1);
}

// ── Own scenarios, with explicit times ───────────────────────────────────────

#[test]
fn execution_after_grace_period_is_refused_and_changes_nothing() {
    let mut svc = make_service();
    svc.initiate_at("R1".into(), "O1".into(), 100, "r".into(), "p".into(), 1_000, 500, 0, 1_000).unwrap();
    svc.approve_at("R1", "m".into(), 2_000).unwrap();
    let err = svc.execute_at("R1", "m".into(), 2_000 + EXECUTION_GRACE_PERIOD_SECS + 1).unwrap_err();
    assert_eq!(err, RefundError::ExecutionWindowExpired);
    assert_eq!(svc.get_refund("R1").unwrap().status, RefundStatus::Approved);
    assert_eq!(svc.audit_log.len(), 2);
    svc.execute_at("R1", "m".into(), 2_000 + EXECUTION_GRACE_PERIOD_SECS).unwrap();
    let r = svc.get_refund("R1").unwrap();
    assert_eq!(r.executed_at, Some(2_000 + EXECUTION_GRACE_PERIOD_SECS));
    assert_eq!(r.approved_at, Some(2_000));
}

#[test]
fn final_states_refuse_every_step() {
    let mut svc = make_service();
    svc.initiate_at("R1".into(), "O1".into(), 100, "r".into(), "p".into(), 0, 500, 0, 10).unwrap();
    svc.cancel_at("R1", "p".into(), 20).unwrap();
    match svc.approve_at("R1", "m".into(), 30).unwrap_err() {
        RefundError::InvalidTransition { from, to } => {
            assert_eq!(from, "Cancelled");
            assert_eq!(to, "Approved");
        }
        e => panic!("unexpected {:?}", e),
    }
    assert_eq!(svc.audit_log.len(), 2);
    assert_eq!(svc.audit_log[1].event_type.to_string(), "refund_cancelled");
    assert_eq!(svc.approve_at("NOPE", "m".into(), 30).unwrap_err(), RefundError::RefundNotFound);
}

#[test]
fn zero_amount_and_exact_window_edges() {
    let mut svc = make_service();
    assert_eq!(
        svc.initiate_at("R0".into(), "O".into(), 0, "r".into(), "p".into(), 0, 500, 0, 0).unwrap_err(),
        RefundError::InvalidAmount
    );
    // Already refunded more than paid: nothing remains.
    assert_eq!(
        svc.initiate_at("R1".into(), "O".into(), 1, "r".into(), "p".into(), 0, 500, 600, 0).unwrap_err(),
        RefundError::AmountExceedsPayment
    );
    // The last second of the window is still inside it.
    svc.initiate_at("R2".into(), "O".into(), 500, "r".into(), "p".into(), 0, 500, 0, REFUND_WINDOW_SECS).unwrap();
    let err = RefundError::InvalidTransition { from: "Pending".into(), to: "Executed".into() };
    assert_eq!(err.to_string(), "Invalid state transition: Pending → Executed");
}
