use pulsar::contract::audit::{get_audit_count, get_entries, get_entry, log, AuditAction};
use pulsar::contract::data_quality::{run_checks, Severity};
use pulsar::contract::error::PaymentError;
use pulsar::contract::helper::validate_amount;
use pulsar::contract::state::PaymentContract;
use pulsar::contract::types::{ContractEvent, MerchantCategory, PaymentOrder};

fn contract_with_payment() -> PaymentContract {
    let mut c = PaymentContract::new("CCONTRACT".to_string());
    c.set_admin("GADMIN".to_string()).unwrap();
    c.register_merchant(
        "GM".to_string(),
        "Store".to_string(),
        "desc".to_string(),
        "c@c.com".to_string(),
        MerchantCategory::Food,
        0,
    )
    .unwrap();
    let order = PaymentOrder {
        order_id: "O1".to_string(),
        merchant_address: "GM".to_string(),
        payer: "GP".to_string(),
        token: "CT".to_string(),
        amount: 700,
        description: "d".to_string(),
        expires_at: 0,
    };
    c.process_payment_with_signature("GP".to_string(), order, [0u8; 64], [0u8; 32], 50).unwrap();
    c
}

#[test]
fn audit_log_is_sequential_and_pages_newest_first() {
    let mut c = PaymentContract::new("CCONTRACT".to_string());
    assert_eq!(get_audit_count(&c), 0);
    assert!(get_entries(&c, 0, 10).is_empty());
    for i in 0..5u64 {
        log(&mut c, AuditAction::PaymentProcessed, "GADMIN".to_string(), format!("O{}", i), 100 + i);
    }
    assert_eq!(get_audit_count(&c), 5);
    let e3 = get_entry(&c, 3).unwrap();
    assert_eq!(e3.index, 3);
    assert_eq!(e3.target_id, "O2");
    assert_eq!(e3.timestamp, 102);
    assert!(get_entry(&c, 0).is_none());
    assert!(get_entry(&c, 6).is_none());
    let page: Vec<u64> = get_entries(&c, 0, 2).iter().map(|e| e.index).collect();
    assert_eq!(page, vec![5, 4]);
    let page: Vec<u64> = get_entries(&c, 2, 10).iter().map(|e| e.index).collect();
    assert_eq!(page, vec![2, 1]);
    let page: Vec<u64> = get_entries(&c, 99, 100).iter().map(|e| e.index).collect();
    assert_eq!(page, vec![5, 4, 3, 2, 1]);
    match c.events().last().unwrap() {
        ContractEvent::Audit { index, .. } => assert_eq!(*index, 5),
        e => panic!("unexpected {:?}", e),
    }
    assert_eq!(c.events().last().unwrap().topic(), "audit");
}

#[test]
fn audit_page_is_capped_at_fifty() {
    let mut c = PaymentContract::new("CCONTRACT".to_string());
    for i in 0..60u64 {
        log(&mut c, AuditAction::ConfigChanged, "GADMIN".to_string(), String::new(), i);
    }
    let page = get_entries(&c, 0, 80);
    assert_eq!(page.len(), 50);
    assert_eq!(page[0].index, 60);
    assert_eq!(page[49].index, 11);
}

#[test]
fn data_quality_on_consistent_state_finds_nothing() {
    let mut c = contract_with_payment();
    let report = run_checks(&mut c, 100);
    assert_eq!(report.generated_at, 100);
    assert_eq!(report.total_checked, 3);
    assert_eq!(report.critical_count, 0);
    assert_eq!(report.warning_count, 0);
    assert!(report.findings.is_empty());
    assert_eq!(c.events().last().unwrap().topic(), "dq_check");
}

#[test]
fn data_quality_flags_future_payment() {
    let mut c = contract_with_payment();
    let report = run_checks(&mut c, 10);
    assert_eq!(report.warning_count, 1);
    assert_eq!(report.critical_count, 0);
    assert_eq!(report.findings.len(), 1);
    assert_eq!(report.findings[0].check, "timestamp_anomaly");
    assert_eq!(report.findings[0].severity, Severity::Warning);
    assert_eq!(report.findings[0].entity_id, "O1");
}

#[test]
fn validate_amount_accepts_positive_only() {
    assert_eq!(validate_amount(1), Ok(()));
    assert_eq!(validate_amount(0), Err(PaymentError::InvalidAmount));
    assert_eq!(validate_amount(-5), Err(PaymentError::InvalidAmount));
}

#[test]
fn error_codes() {
    assert_eq!(PaymentError::Unauthorized.code(), 1);
    assert_eq!(PaymentError::MerchantAlreadyRegistered.code(), 11);
}
