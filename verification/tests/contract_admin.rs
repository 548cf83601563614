use ed25519_dalek::{Signer, SigningKey};
use pulsar::contract::error::PaymentError;
use pulsar::contract::state::PaymentContract;
use pulsar::contract::types::{
    AdminConfig, MerchantCategory, PaymentFilter, PaymentOrder, SortField, SortOrder, StatusFilter,
};

fn contract() -> PaymentContract {
    let mut c = PaymentContract::new("CCONTRACT".to_string());
    c.set_admin("GADMIN".to_string()).unwrap();
    c.register_merchant(
        "GM".to_string(),
        "Store".to_string(),
        "desc".to_string(),
        "c@c.com".to_string(),
        MerchantCategory::Retail,
        0,
    )
    .unwrap();
    c
}

fn pay(c: &mut PaymentContract, id: &str, payer: &str, token: &str, amount: i128, now: u64) {
    let order = PaymentOrder {
        order_id: id.to_string(),
        merchant_address: "GM".to_string(),
        payer: payer.to_string(),
        token: token.to_string(),
        amount,
        description: "d".to_string(),
        expires_at: 0,
    };
    c.process_payment_with_signature(payer.to_string(), order, [0u8; 64], [0u8; 32], now).unwrap();
}

#[test]
fn archive_and_cleanup() {
    let mut c = contract();
    pay(&mut c, "O1", "GP", "CT", 100, 10);
    pay(&mut c, "O2", "GP", "CT", 200, 8_000_000);
    assert_eq!(c.archive_payment_record("GP", "O1"), Err(PaymentError::Unauthorized));
    assert_eq!(c.archive_payment_record("GADMIN", "NOPE"), Err(PaymentError::PaymentNotFound));
    // 90 days after the second payment, only the first one is old enough.
    let removed = c.cleanup_expired_payments("GADMIN", 7_776_000 + 20).unwrap();
    assert_eq!(removed, 1);
    assert_eq!(c.get_payment_by_id("GADMIN", "O1").map(|p| p.amount), Err(PaymentError::PaymentNotFound));
    c.archive_payment_record("GADMIN", "O2").unwrap();
    assert_eq!(c.get_payment_by_id("GADMIN", "O2").map(|p| p.amount), Err(PaymentError::PaymentNotFound));
    assert_eq!(c.cleanup_expired_payments("GM", 0), Err(PaymentError::Unauthorized));
}

#[test]
fn configuration_setters() {
    let mut c = contract();
    assert_eq!(c.set_payment_cleanup_period("GADMIN", 0), Err(PaymentError::InvalidInput));
    assert_eq!(c.set_default_multisig_expiry("GADMIN", 3599), Err(PaymentError::InvalidInput));
    assert_eq!(c.set_default_multisig_expiry("GADMIN", 3600), Ok(()));
    assert_eq!(c.set_default_multisig_expiry("GM", 7200), Err(PaymentError::Unauthorized));
    assert_eq!(c.update_payment_status("GADMIN", "O1", 5), Err(PaymentError::InvalidInput));
}

#[test]
fn merchant_updates_and_checks() {
    let mut c = contract();
    c.update_merchant("GM", "Shop".to_string(), "new".to_string(), "x@y.z".to_string(), MerchantCategory::Digital)
        .unwrap();
    let m = c.get_merchant("GM").unwrap();
    assert_eq!(m.name, "Shop");
    assert_eq!(m.category, MerchantCategory::Digital);
    assert_eq!(
        c.update_merchant("GM", "".to_string(), "".to_string(), "".to_string(), MerchantCategory::Other),
        Err(PaymentError::InvalidInput)
    );
    assert_eq!(c.require_merchant("GM", "GM"), Ok(()));
    assert_eq!(c.require_merchant("GX", "GM"), Err(PaymentError::Unauthorized));
    assert_eq!(c.require_merchant("GX", "GX"), Err(PaymentError::MerchantNotFound));
    c.deactivate_merchant("GM", "GM").unwrap();
    assert_eq!(c.require_merchant("GM", "GM"), Err(PaymentError::MerchantInactive));
    assert_eq!(c.require_admin("GADMIN"), Ok(()));
    assert_eq!(c.require_admin("GM"), Err(PaymentError::Unauthorized));
}

#[test]
fn payer_history_with_filter() {
    let mut c = contract();
    pay(&mut c, "O1", "GP", "CA", 100, 10);
    pay(&mut c, "O2", "GP", "CB", 200, 20);
    pay(&mut c, "O3", "GQ", "CA", 300, 30);
    pay(&mut c, "O4", "GP", "CA", 400, 40);
    let filter = PaymentFilter {
        date_start: None,
        date_end: None,
        amount_min: Some(150),
        amount_max: None,
        token: Some("CA".to_string()),
        status: StatusFilter::Completed,
    };
    let page = c
        .get_payer_payment_history("GP", None, 10, Some(filter), SortField::Date, SortOrder::Ascending)
        .unwrap();
    let ids: Vec<&str> = page.records.iter().map(|p| p.order_id.as_str()).collect();
    assert_eq!(ids, vec!["O4"]);
    assert_eq!(page.total, 1);
    assert_eq!(page.next_cursor, None);
    let page = c
        .get_payer_payment_history("GP", None, 2, None, SortField::Date, SortOrder::Ascending)
        .unwrap();
    assert_eq!(page.next_cursor, Some("O2".to_string()));
}

#[test]
fn stored_settings() {
    let mut c = contract();
    assert_eq!(c.get_contract_version(), 0);
    c.set_contract_version(3);
    assert_eq!(c.get_contract_version(), 3);
    assert!(c.get_admin_config().is_none());
    c.set_admin_config(AdminConfig { admins: vec!["GA".to_string(), "GB".to_string()], threshold: 2 });
    let cfg = c.get_admin_config().unwrap();
    assert_eq!(cfg.admins.len(), 2);
    assert_eq!(cfg.threshold, 2);
    assert!(!c.is_whitelist_enabled());
    c.set_whitelist_enabled(true);
    assert!(c.is_whitelist_enabled());
    assert!(!c.is_whitelisted("GX"));
    c.set_whitelisted("GX", true);
    assert!(c.is_whitelisted("GX"));
    c.set_whitelisted("GX", false);
    assert!(!c.is_whitelisted("GX"));
}

#[test]
fn multisig_signing_rules() {
    let mut c = contract();
    let order = PaymentOrder {
        order_id: "MS".to_string(),
        merchant_address: "GM".to_string(),
        payer: "GS1".to_string(),
        token: "CT".to_string(),
        amount: 50,
        description: "m".to_string(),
        expires_at: 0,
    };
    c.initiate_multisig_payment("GS1".to_string(), "MS".to_string(), order, vec!["GS1".to_string()], 100)
        .unwrap();
    assert_eq!(c.sign_multisig_payment("GX".to_string(), "MS", 100), Err(PaymentError::Unauthorized));
    c.sign_multisig_payment("GS1".to_string(), "MS", 100).unwrap();
    assert_eq!(c.sign_multisig_payment("GS1".to_string(), "MS", 100), Err(PaymentError::MultisigAlreadySigned));
    // The default expiry is 24 hours after initiation.
    assert_eq!(c.execute_multisig_payment("GS1".to_string(), "MS", 100 + 86_401), Err(PaymentError::PaymentExpired));
    c.execute_multisig_payment("GS1".to_string(), "MS", 100 + 86_400).unwrap();
    assert_eq!(c.execute_multisig_payment("GS1".to_string(), "MS", 200), Err(PaymentError::MultisigAlreadyExecuted));
}

#[test]
fn signatures_are_checked_unless_the_key_is_zero() {
    let mut c = contract();
    let sk = SigningKey::from_bytes(&[7u8; 32]);
    let pk = sk.verifying_key().to_bytes();
    let good = sk.sign(b"SIGNED_1").to_bytes();
    let order = |id: &str| PaymentOrder {
        order_id: id.to_string(),
        merchant_address: "GM".to_string(),
        payer: "GP".to_string(),
        token: "CT".to_string(),
        amount: 10,
        description: "d".to_string(),
        expires_at: 0,
    };
    // A signature of another order id does not hold.
    assert_eq!(
        c.process_payment_with_signature("GP".to_string(), order("SIGNED_2"), good, pk, 0),
        Err(PaymentError::InvalidSignature)
    );
    assert_eq!(c.process_payment_with_signature("GP".to_string(), order("SIGNED_1"), good, pk, 0), Ok(()));
    assert_eq!(
        c.process_payment_checked("GP".to_string(), order("SIGNED_3"), false, 0),
        Err(PaymentError::InvalidSignature)
    );
    assert_eq!(c.process_payment_checked("GP".to_string(), order("SIGNED_3"), true, 0), Ok(()));
}
