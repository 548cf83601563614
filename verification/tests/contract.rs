use pulsar::contract::error::PaymentError;
use pulsar::contract::state::PaymentContract;
use pulsar::contract::types::{
    MerchantCategory, PaymentOrder, PaymentStatus, RefundStatus, SortField, SortOrder,
};

const ADMIN: &str = "GADMIN";
const MERCHANT: &str = "GMERCHANT";
const PAYER: &str = "GPAYER";
const TOKEN: &str = "CTOKEN";

fn setup() -> PaymentContract {
    PaymentContract::new("CCONTRACT".to_string())
}

fn register(c: &mut PaymentContract, merchant: &str) {
    c.register_merchant(
        merchant.to_string(),
        "Store".to_string(),
        "desc".to_string(),
        "c@c.com".to_string(),
        MerchantCategory::Retail,
        0,
    )
    .unwrap();
}

fn order(id: &str, amount: i128) -> PaymentOrder {
    PaymentOrder {
        order_id: id.to_string(),
        merchant_address: MERCHANT.to_string(),
        payer: PAYER.to_string(),
        token: TOKEN.to_string(),
        amount,
        description: "Test order".to_string(),
        expires_at: 0,
    }
}

fn pay(c: &mut PaymentContract, o: PaymentOrder, now: u64) -> Result<(), PaymentError> {
    c.process_payment_with_signature(PAYER.to_string(), o, [0u8; 64], [0u8; 32], now)
}

fn setup_paid_order() -> PaymentContract {
    let mut c = setup();
    c.set_admin(ADMIN.to_string()).unwrap();
    register(&mut c, MERCHANT);
    pay(&mut c, order("ORDER_001", 1000), 0).unwrap();
    c
}

#[test]
fn test_set_admin_success() {
    let mut c = setup();
    assert_eq!(c.set_admin(ADMIN.to_string()), Ok(()));
}

#[test]
fn test_set_admin_twice_fails() {
    let mut c = setup();
    c.set_admin(ADMIN.to_string()).unwrap();
    assert_eq!(c.set_admin(ADMIN.to_string()), Err(PaymentError::AdminAlreadySet));
}

#[test]
fn test_register_merchant_success() {
    let mut c = setup();
    c.register_merchant(
        MERCHANT.to_string(),
        "My Store".to_string(),
        "A great store".to_string(),
        "contact@store.com".to_string(),
        MerchantCategory::Retail,
        0,
    )
    .unwrap();
    let m = c.get_merchant(MERCHANT).unwrap();
    assert_eq!(m.name, "My Store");
    assert!(m.active);
}

#[test]
fn test_register_merchant_duplicate_fails() {
    let mut c = setup();
    register(&mut c, MERCHANT);
    let result = c.register_merchant(
        MERCHANT.to_string(),
        "Store".to_string(),
        "desc".to_string(),
        "c@c.com".to_string(),
        MerchantCategory::Retail,
        0,
    );
    assert_eq!(result, Err(PaymentError::MerchantAlreadyRegistered));
}

#[test]
fn test_deactivate_merchant() {
    let mut c = setup();
    c.set_admin(ADMIN.to_string()).unwrap();
    register(&mut c, MERCHANT);
    c.deactivate_merchant(ADMIN, MERCHANT).unwrap();
    let m = c.get_merchant(MERCHANT).unwrap();
    assert!(!m.active);
}

#[test]
fn test_successful_payment_with_signature() {
    let mut c = setup();
    c.set_admin(ADMIN.to_string()).unwrap();
    register(&mut c, MERCHANT);
    pay(&mut c, order("ORDER_001", 1000), 0).unwrap();
    let record = c.get_payment_by_id(PAYER, "ORDER_001").unwrap();
    assert_eq!(record.amount, 1000);
    assert_eq!(record.status, PaymentStatus::Completed);
}

#[test]
fn test_duplicate_payment_fails() {
    let mut c = setup();
    c.set_admin(ADMIN.to_string()).unwrap();
    register(&mut c, MERCHANT);
    pay(&mut c, order("ORDER_001", 1000), 0).unwrap();
    let result = pay(&mut c, order("ORDER_001", 1000), 0);
    assert_eq!(result, Err(PaymentError::PaymentAlreadyExists));
}

#[test]
fn test_payment_expired_fails() {
    let mut c = setup();
    c.set_admin(ADMIN.to_string()).unwrap();
    register(&mut c, MERCHANT);
    let mut o = order("ORDER_001", 1000);
    o.expires_at = 1000;
    let result = pay(&mut c, o, 2000);
    assert_eq!(result, Err(PaymentError::PaymentExpired));
}

#[test]
fn test_successful_refund_flow() {
    let mut c = setup_paid_order();
    c.initiate_refund(
        PAYER.to_string(),
        "REFUND_001".to_string(),
        "ORDER_001",
        500,
        "Customer request".to_string(),
        0,
    )
    .unwrap();
    assert_eq!(c.get_refund_status("REFUND_001"), Ok(RefundStatus::Pending));
    c.approve_refund(MERCHANT, "REFUND_001").unwrap();
    assert_eq!(c.get_refund_status("REFUND_001"), Ok(RefundStatus::Approved));
    c.execute_refund(MERCHANT, "REFUND_001").unwrap();
    assert_eq!(c.get_refund_status("REFUND_001"), Ok(RefundStatus::Completed));
    let record = c.get_payment_by_id(PAYER, "ORDER_001").unwrap();
    assert_eq!(record.refunded_amount, 500);
    assert_eq!(record.status, PaymentStatus::PartiallyRefunded);
}

#[test]
fn test_refund_exceeds_payment_fails() {
    let mut c = setup_paid_order();
    let result = c.initiate_refund(
        PAYER.to_string(),
        "REFUND_001".to_string(),
        "ORDER_001",
        1500,
        "Too much".to_string(),
        0,
    );
    assert_eq!(result, Err(PaymentError::RefundAmountExceedsPayment));
}

#[test]
fn test_refund_window_expired_fails() {
    let mut c = setup_paid_order();
    let result = c.initiate_refund(
        PAYER.to_string(),
        "REFUND_001".to_string(),
        "ORDER_001",
        500,
        "Late".to_string(),
        2_592_001,
    );
    assert_eq!(result, Err(PaymentError::RefundWindowExpired));
}

#[test]
fn test_reject_refund() {
    let mut c = setup_paid_order();
    c.initiate_refund(
        PAYER.to_string(),
        "REFUND_001".to_string(),
        "ORDER_001",
        500,
        "Request".to_string(),
        0,
    )
    .unwrap();
    c.reject_refund(MERCHANT, "REFUND_001").unwrap();
    assert_eq!(c.get_refund_status("REFUND_001"), Ok(RefundStatus::Rejected));
}

#[test]
fn test_get_merchant_payment_history() {
    let mut c = setup();
    c.set_admin(ADMIN.to_string()).unwrap();
    register(&mut c, MERCHANT);
    for (id, amount) in [("ORDER_001", 100i128), ("ORDER_002", 200), ("ORDER_003", 300)] {
        let mut o = order(id, amount);
        o.description = "desc".to_string();
        pay(&mut c, o, 0).unwrap();
    }
    let page = c
        .get_merchant_payment_history(MERCHANT, None, 10, None, SortField::Amount, SortOrder::Descending)
        .unwrap();
    assert_eq!(page.total, 3);
    assert_eq!(page.records[0].amount, 300);
}

fn multisig_order(id: &str) -> PaymentOrder {
    PaymentOrder {
        order_id: id.to_string(),
        merchant_address: MERCHANT.to_string(),
        payer: "GSIGNER1".to_string(),
        token: TOKEN.to_string(),
        amount: 1000,
        description: "Multisig order".to_string(),
        expires_at: 0,
    }
}

#[test]
fn test_initiate_multisig_payment_success() {
    let mut c = setup();
    c.set_admin(ADMIN.to_string()).unwrap();
    register(&mut c, MERCHANT);
    let signers = vec!["GSIGNER1".to_string(), "GSIGNER2".to_string()];
    c.initiate_multisig_payment("GSIGNER1".to_string(), "MS_001".to_string(), multisig_order("MS_001"), signers, 0)
        .unwrap();
    c.sign_multisig_payment("GSIGNER1".to_string(), "MS_001", 0).unwrap();
    c.sign_multisig_payment("GSIGNER2".to_string(), "MS_001", 0).unwrap();
    c.execute_multisig_payment("GSIGNER1".to_string(), "MS_001", 0).unwrap();
    let record = c.get_payment_by_id("GSIGNER1", "MS_001").unwrap();
    assert_eq!(record.amount, 1000);
    assert_eq!(record.status, PaymentStatus::Completed);
}

#[test]
fn test_multisig_insufficient_signatures_fails() {
    let mut c = setup();
    c.set_admin(ADMIN.to_string()).unwrap();
    register(&mut c, MERCHANT);
    let signers = vec!["GSIGNER1".to_string(), "GSIGNER2".to_string()];
    c.initiate_multisig_payment("GSIGNER1".to_string(), "MS_002".to_string(), multisig_order("MS_002"), signers, 0)
        .unwrap();
    c.sign_multisig_payment("GSIGNER1".to_string(), "MS_002", 0).unwrap();
    let result = c.execute_multisig_payment("GSIGNER1".to_string(), "MS_002", 0);
    assert_eq!(result, Err(PaymentError::InsufficientSignatures));
}

#[test]
fn test_set_cleanup_period() {
    let mut c = setup();
    c.set_admin(ADMIN.to_string()).unwrap();
    assert_eq!(c.set_payment_cleanup_period(ADMIN, 86400), Ok(()));
}

#[test]
fn test_get_global_stats() {
    let c = setup_paid_order();
    let stats = c.get_global_payment_stats(ADMIN, None, None).unwrap();
    assert_eq!(stats.total_payments, 1);
    assert_eq!(stats.total_volume, 1000);
}

#[test]
fn test_approve_refund_unauthorized_fails() {
    let mut c = setup();
    c.set_admin(ADMIN.to_string()).unwrap();
    register(&mut c, MERCHANT);
    pay(&mut c, order("ORDER_001", 1000), 0).unwrap();
    c.initiate_refund(PAYER.to_string(), "R1".to_string(), "ORDER_001", 100, "reason".to_string(), 0)
        .unwrap();
    assert_eq!(c.approve_refund("GSTRANGER", "R1"), Err(PaymentError::Unauthorized));
}

#[test]
fn test_initiate_multisig_duplicate_signer_fails() {
    let mut c = setup();
    c.set_admin(ADMIN.to_string()).unwrap();
    register(&mut c, MERCHANT);
    let signers = vec!["GSIGNER1".to_string(), "GSIGNER1".to_string()];
    let result = c.initiate_multisig_payment(
        "GSIGNER1".to_string(),
        "MS_DUP".to_string(),
        multisig_order("MS_DUP"),
        signers,
        0,
    );
    assert_eq!(result, Err(PaymentError::InvalidInput));
}

#[test]
fn test_pagination_cursor_inverted() {
    let mut c = setup();
    c.set_admin(ADMIN.to_string()).unwrap();
    register(&mut c, MERCHANT);
    for i in 1..=5i128 {
        pay(&mut c, order(&format!("ORDER_{:03}", i), i * 100), 0).unwrap();
    }
    let page1 = c
        .get_merchant_payment_history(MERCHANT, None, 2, None, SortField::Amount, SortOrder::Descending)
        .unwrap();
    assert_eq!(page1.records.len(), 2);
    assert_eq!(page1.records[0].amount, 500);
    assert_eq!(page1.records[1].amount, 400);
    let cursor = page1.next_cursor;
    let page2 = c
        .get_merchant_payment_history(MERCHANT, cursor, 2, None, SortField::Amount, SortOrder::Descending)
        .unwrap();
    assert_eq!(page2.records.len(), 2);
    assert_eq!(page2.records[0].amount, 300);
    assert_eq!(page2.records[1].amount, 200);
}

fn pay_at(c: &mut PaymentContract, id: &str, amount: i128, timestamp: u64) {
    let mut o = order(id, amount);
    o.description = "payment".to_string();
    pay(c, o, timestamp).unwrap();
}

fn stats_setup() -> PaymentContract {
    let mut c = setup();
    c.set_admin(ADMIN.to_string()).unwrap();
    register(&mut c, MERCHANT);
    c
}

#[test]
fn test_get_global_payment_stats_no_filter() {
    let mut c = stats_setup();
    pay_at(&mut c, "ORDER_001", 1000, 1000);
    pay_at(&mut c, "ORDER_002", 2000, 2000);
    c.initiate_refund(PAYER.to_string(), "R1".to_string(), "ORDER_001", 500, "reason".to_string(), 3000)
        .unwrap();
    c.approve_refund(MERCHANT, "R1").unwrap();
    c.execute_refund(MERCHANT, "R1").unwrap();
    let stats = c.get_global_payment_stats(ADMIN, None, None).unwrap();
    assert_eq!(stats.total_payments, 2);
    assert_eq!(stats.total_volume, 3000);
    assert_eq!(stats.total_refunds, 1);
    assert_eq!(stats.total_refund_volume, 500);
}

#[test]
fn test_get_global_payment_stats_start_only() {
    let mut c = stats_setup();
    pay_at(&mut c, "ORDER_001", 1000, 1000);
    pay_at(&mut c, "ORDER_002", 2000, 2500);
    let stats = c.get_global_payment_stats(ADMIN, Some(2000), None).unwrap();
    assert_eq!(stats.total_payments, 1);
    assert_eq!(stats.total_volume, 2000);
}

#[test]
fn test_get_global_payment_stats_end_only() {
    let mut c = stats_setup();
    pay_at(&mut c, "ORDER_001", 1000, 1000);
    pay_at(&mut c, "ORDER_002", 2000, 2500);
    let stats = c.get_global_payment_stats(ADMIN, None, Some(1500)).unwrap();
    assert_eq!(stats.total_payments, 1);
    assert_eq!(stats.total_volume, 1000);
}

#[test]
fn test_get_global_payment_stats_both_filters() {
    let mut c = stats_setup();
    pay_at(&mut c, "ORDER_001", 1000, 1000);
    pay_at(&mut c, "ORDER_002", 2000, 2000);
    pay_at(&mut c, "ORDER_003", 3000, 3000);
    let stats = c.get_global_payment_stats(ADMIN, Some(1500), Some(2500)).unwrap();
    assert_eq!(stats.total_payments, 1);
    assert_eq!(stats.total_volume, 2000);
}

#[test]
fn test_get_global_payment_stats_empty_range() {
    let mut c = stats_setup();
    pay_at(&mut c, "ORDER_001", 1000, 1000);
    pay_at(&mut c, "ORDER_002", 2000, 2000);
    let stats = c.get_global_payment_stats(ADMIN, Some(5000), Some(6000)).unwrap();
    assert_eq!(stats.total_payments, 0);
    assert_eq!(stats.total_volume, 0);
    assert_eq!(stats.total_refunds, 0);
    assert_eq!(stats.total_refund_volume, 0);
}

// ── Own scenarios ────────────────────────────────────────────────────────────

#[test]
fn payment_requests_token_transfer_and_event() {
    let mut c = setup_paid_order();
    let t = c.transfers().last().unwrap().clone();
    assert_eq!(t.from, PAYER);
    assert_eq!(t.to, MERCHANT);
    assert_eq!(t.amount, 1000);
    assert_eq!(c.events().last().unwrap().topic(), "payment_processed");
    let before = c.events().len();
    assert_eq!(pay(&mut c, order("ORDER_001", 1000), 0), Err(PaymentError::PaymentAlreadyExists));
    assert_eq!(c.events().len(), before);
}

#[test]
fn refund_executes_once_and_full_refund_marks_payment() {
    let mut c = setup_paid_order();
    c.initiate_refund(PAYER.to_string(), "R1".to_string(), "ORDER_001", 1000, "all".to_string(), 10)
        .unwrap();
    c.approve_refund(MERCHANT, "R1").unwrap();
    c.execute_refund(MERCHANT, "R1").unwrap();
    assert_eq!(c.get_payment_by_id(PAYER, "ORDER_001").unwrap().status, PaymentStatus::FullyRefunded);
    assert_eq!(c.execute_refund(MERCHANT, "R1"), Err(PaymentError::RefundNotApproved));
    assert_eq!(c.approve_refund(MERCHANT, "R1"), Err(PaymentError::RefundAlreadyCompleted));
}

#[test]
fn invalid_amount_and_unknown_ids_are_refused() {
    let mut c = setup_paid_order();
    assert_eq!(pay(&mut c, order("ORDER_X", 0), 0), Err(PaymentError::InvalidAmount));
    assert_eq!(c.get_refund_status("NOPE"), Err(PaymentError::RefundNotFound));
    assert_eq!(c.get_merchant("GNOBODY").map(|m| m.name), Err(PaymentError::MerchantNotFound));
    assert_eq!(c.sign_multisig_payment("GS".to_string(), "NOPE", 0), Err(PaymentError::MultisigNotFound));
}

#[test]
fn stranger_cannot_read_payment() {
    let c = setup_paid_order();
    assert_eq!(c.get_payment_by_id("GSTRANGER", "ORDER_001").map(|p| p.amount), Err(PaymentError::Unauthorized));
    assert_eq!(c.get_payment_by_id(ADMIN, "ORDER_001").map(|p| p.amount), Ok(1000));
}

#[test]
fn merchant_deactivates_itself_without_admin() {
    let mut c = setup();
    register(&mut c, MERCHANT);
    assert_eq!(c.deactivate_merchant("GOTHER", MERCHANT), Err(PaymentError::Unauthorized));
    assert!(c.get_merchant(MERCHANT).unwrap().active);
    assert_eq!(c.deactivate_merchant(MERCHANT, MERCHANT), Ok(()));
    assert!(!c.get_merchant(MERCHANT).unwrap().active);
}

fn refund(c: &mut PaymentContract, id: &str, amount: i128) -> Result<(), PaymentError> {
    c.initiate_refund(PAYER.to_string(), id.to_string(), "ORDER_001", amount, "r".to_string(), 10)
}

#[test]
fn outstanding_refunds_count_against_the_payment() {
    let mut c = setup_paid_order();
    refund(&mut c, "R1", 600).unwrap();
    assert_eq!(c.get_refund_status("R1"), Ok(RefundStatus::Pending));
    assert_eq!(refund(&mut c, "R2", 600), Err(PaymentError::RefundAmountExceedsPayment));
    refund(&mut c, "R2", 400).unwrap();
    let p = c.get_payment_by_id(PAYER, "ORDER_001").unwrap();
    assert_eq!(p.pending_refund_amount, 1000);
    assert_eq!(refund(&mut c, "R3", 1), Err(PaymentError::RefundAmountExceedsPayment));
}

#[test]
fn rejection_releases_and_execution_converts_the_reservation() {
    let mut c = setup_paid_order();
    refund(&mut c, "R1", 600).unwrap();
    c.reject_refund(MERCHANT, "R1").unwrap();
    assert_eq!(c.get_payment_by_id(PAYER, "ORDER_001").unwrap().pending_refund_amount, 0);
    refund(&mut c, "R2", 600).unwrap();
    refund(&mut c, "R3", 400).unwrap();
    c.approve_refund(MERCHANT, "R2").unwrap();
    c.approve_refund(MERCHANT, "R3").unwrap();
    c.execute_refund(MERCHANT, "R2").unwrap();
    let p = c.get_payment_by_id(PAYER, "ORDER_001").unwrap();
    assert_eq!((p.refunded_amount, p.pending_refund_amount), (600, 400));
    assert_eq!(p.status, PaymentStatus::PartiallyRefunded);
    c.execute_refund(MERCHANT, "R3").unwrap();
    let p = c.get_payment_by_id(PAYER, "ORDER_001").unwrap();
    assert_eq!((p.refunded_amount, p.pending_refund_amount), (1000, 0));
    assert_eq!(p.status, PaymentStatus::FullyRefunded);
}
