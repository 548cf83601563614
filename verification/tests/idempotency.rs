use std::hash::{Hash, Hasher};

use pulsar::idempotency::{IdempotencyResult, IdempotencyService, MemoryStore};

fn svc() -> IdempotencyService<MemoryStore> {
    IdempotencyService::new(MemoryStore::new())
}

#[test]
fn new_key_returns_new() {
    let s = svc();
    assert!(matches!(s.check("k1", "payment", r#"{"a":1}"#, 1000), IdempotencyResult::New));
}

#[test]
fn duplicate_request_returns_cached_response() {
    let mut s = svc();
    s.store("k1".into(), "payment".into(), r#"{"a":1}"#, r#"{"ok":true}"#.into(), 1000);
    match s.check("k1", "payment", r#"{"a":1}"#, 1001) {
        IdempotencyResult::Duplicate(resp) => assert_eq!(resp, r#"{"ok":true}"#),
        _ => panic!("expected Duplicate"),
    }
}

#[test]
fn different_body_is_conflict() {
    let mut s = svc();
    s.store("k1".into(), "payment".into(), r#"{"a":1}"#, r#"{"ok":true}"#.into(), 1000);
    assert!(matches!(s.check("k1", "payment", r#"{"a":2}"#, 1001), IdempotencyResult::Conflict));
}

#[test]
fn different_operation_is_conflict() {
    let mut s = svc();
    s.store("k1".into(), "payment".into(), r#"{"a":1}"#, r#"{"ok":true}"#.into(), 1000);
    assert!(matches!(s.check("k1", "refund", r#"{"a":1}"#, 1001), IdempotencyResult::Conflict));
}

#[test]
fn expired_entry_treated_as_new() {
    let mut s = IdempotencyService::with_ttl(MemoryStore::new(), 100);
    s.store("k1".into(), "payment".into(), r#"{"a":1}"#, r#"{"ok":true}"#.into(), 1000);
    // now = 1101, ttl = 100 → expires_at = 1100, so expired
    assert!(matches!(s.check("k1", "payment", r#"{"a":1}"#, 1101), IdempotencyResult::New));
}

#[test]
fn cleanup_removes_expired_entries() {
    let mut s = IdempotencyService::with_ttl(MemoryStore::new(), 50);
    s.store("k1".into(), "payment".into(), "b", "r".into(), 1000);
    s.store("k2".into(), "payment".into(), "b", "r".into(), 2000);
    s.cleanup(1060); // k1 expired (1050 < 1060), k2 alive
    assert!(matches!(s.check("k1", "payment", "b", 1060), IdempotencyResult::New));
    assert!(matches!(s.check("k2", "payment", "b", 2001), IdempotencyResult::Duplicate(_)));
}

#[test]
fn concurrent_same_key_same_body_returns_duplicate() {
    let mut s = svc();
    s.store("k1".into(), "payment".into(), r#"{"order":"X"}"#, r#"{"id":"X"}"#.into(), 5000);
    // Simulated second concurrent request arriving slightly later
    let r1 = s.check("k1", "payment", r#"{"order":"X"}"#, 5001);
    let r2 = s.check("k1", "payment", r#"{"order":"X"}"#, 5002);
    assert!(matches!(r1, IdempotencyResult::Duplicate(_)));
    assert!(matches!(r2, IdempotencyResult::Duplicate(_)));
}

#[test]
fn memory_store_cleanup_keeps_live_entries_only() {
    let mut s = IdempotencyService::with_ttl(MemoryStore::new(), 10);
    s.store("a".into(), "payment".into(), "x", "ra".into(), 100);
    s.store("b".into(), "refund".into(), "y", "rb".into(), 200);
    s.cleanup(110);
    assert!(matches!(s.check("a", "payment", "x", 105), IdempotencyResult::New));
    match s.check("b", "refund", "y", 205) {
        IdempotencyResult::Duplicate(r) => assert_eq!(r, "rb"),
        _ => panic!("expected Duplicate"),
    }
    // Replacing an entry under the same key keeps one entry, the newest.
    s.store("b".into(), "refund".into(), "z", "rz".into(), 300);
    assert!(matches!(s.check("b", "refund", "y", 305), IdempotencyResult::Conflict));
}

#[test]
fn hash_matches_std_hash_of_str() {
    for body in ["", "b", r#"{"a":1}"#, "héllo wörld"] {
        let mut h = std::collections::hash_map::DefaultHasher::new();
        body.hash(&mut h);
        assert_eq!(pulsar::idempotency::hash_str(body), h.finish());
    }
}
