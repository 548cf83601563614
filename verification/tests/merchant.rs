use pulsar::merchant::{
    MemoryRepository, MerchantCategory, MerchantFilter, MerchantService, ServiceError,
    UpdateMerchantRequest,
};

fn svc() -> MerchantService<MemoryRepository> {
    MerchantService::new(MemoryRepository::new())
}

#[test]
fn register_and_get() {
    let mut s = svc();
    let m = s
        .register("G1".into(), "Shop".into(), "".into(), "".into(), MerchantCategory::Retail, "admin", 100)
        .unwrap();
    assert_eq!(m.address, "G1");
    assert!(m.active);
    assert!(!m.whitelisted);
    assert!(s.get("G1").is_some());
}

#[test]
fn duplicate_registration_fails() {
    let mut s = svc();
    s.register("G1".into(), "Shop".into(), "".into(), "".into(), MerchantCategory::Retail, "admin", 100)
        .unwrap();
    let err = s.register("G1".into(), "Shop2".into(), "".into(), "".into(), MerchantCategory::Food, "admin", 101);
    assert_eq!(err.map(|m| m.address), Err(ServiceError::AlreadyRegistered));
}

#[test]
fn deactivate_and_activate() {
    let mut s = svc();
    s.register("G1".into(), "Shop".into(), "".into(), "".into(), MerchantCategory::Retail, "admin", 100)
        .unwrap();
    s.deactivate("G1", "admin", 200).unwrap();
    assert!(!s.get("G1").unwrap().active);
    s.activate("G1", "admin", 300).unwrap();
    assert!(s.get("G1").unwrap().active);
}

#[test]
fn update_profile() {
    let mut s = svc();
    s.register("G1".into(), "Shop".into(), "".into(), "".into(), MerchantCategory::Retail, "admin", 100)
        .unwrap();
    let mut req = UpdateMerchantRequest::empty();
    req.name = Some("New Name".into());
    let updated = s.update_profile("G1", req, "admin", 200).unwrap();
    assert_eq!(updated.name, "New Name");
}

#[test]
fn search_by_name() {
    let mut s = svc();
    s.register("G1".into(), "Coffee House".into(), "".into(), "".into(), MerchantCategory::Food, "admin", 100)
        .unwrap();
    s.register("G2".into(), "Tech Store".into(), "".into(), "".into(), MerchantCategory::Digital, "admin", 101)
        .unwrap();
    let mut f = MerchantFilter::any();
    f.name_contains = Some("coffee".into());
    let results = s.search(f);
    assert_eq!(results.len(), 1);
    assert_eq!(results[0].address, "G1");
}

#[test]
fn whitelist_enforcement() {
    let mut s = svc();
    s.register("G1".into(), "Shop".into(), "".into(), "".into(), MerchantCategory::Retail, "admin", 100)
        .unwrap();
    s.set_whitelist("G1", true, "admin", 200).unwrap();
    assert!(s.get("G1").unwrap().whitelisted);
}

#[test]
fn invalid_name_rejected() {
    let mut s = svc();
    let err = s.register("G1".into(), "".into(), "".into(), "".into(), MerchantCategory::Retail, "admin", 100);
    assert!(matches!(err, Err(ServiceError::InvalidInput(_))));
}

// ── Own scenarios ────────────────────────────────────────────────────────────

#[test]
fn state_errors_and_messages() {
    let mut s = svc();
    assert_eq!(s.deactivate("G9", "admin", 1), Err(ServiceError::NotFound));
    s.register("G1".into(), "Shop".into(), "".into(), "".into(), MerchantCategory::Retail, "admin", 100)
        .unwrap();
    assert_eq!(s.activate("G1", "admin", 2), Err(ServiceError::AlreadyActive));
    s.deactivate("G1", "admin", 3).unwrap();
    assert_eq!(s.deactivate("G1", "admin", 4), Err(ServiceError::AlreadyInactive));
    assert_eq!(ServiceError::AlreadyInactive.to_string(), "merchant already inactive");
    assert_eq!(
        ServiceError::InvalidInput("x".into()).to_string(),
        "invalid input: x"
    );
    // Whitespace only, and 256 bytes, are refused; 255 bytes pass.
    assert!(s.register("G2".into(), " \t ".into(), "".into(), "".into(), MerchantCategory::Other, "a", 5).is_err());
    assert!(s.register("G3".into(), "x".repeat(256), "".into(), "".into(), MerchantCategory::Other, "a", 5).is_err());
    assert!(s.register("G4".into(), "x".repeat(255), "".into(), "".into(), MerchantCategory::Other, "a", 5).is_ok());
}

#[test]
fn update_applies_only_given_fields() {
    let repo = MemoryRepository::new();
    let mut s = MerchantService::new(repo);
    s.register("G1".into(), "Shop".into(), "d".into(), "c".into(), MerchantCategory::Retail, "admin", 100)
        .unwrap();
    let mut req = UpdateMerchantRequest::empty();
    req.name = Some("Cafe".into());
    req.contact_info = Some("new".into());
    req.category = Some(MerchantCategory::Food);
    let m = s.update_profile("G1", req, "ops", 150).unwrap();
    assert_eq!(m.updated_at, 150);
    assert_eq!(m.category, MerchantCategory::Food);
    assert_eq!(m.description, "d");
    // Nothing to change: the stored profile comes back, untouched.
    let same = s.update_profile("G1", UpdateMerchantRequest::empty(), "ops", 999).unwrap();
    assert_eq!(same.updated_at, 150);
    assert_eq!(s.get_stats("G1").unwrap().payment_count, 0);
    assert_eq!(s.get_stats("G9").map(|st| st.address), Err(ServiceError::NotFound));
}
