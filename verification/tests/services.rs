use pulsar::clock::UtcTime;
use pulsar::analytics::{part_limit, SearchResult, Synonym};
use pulsar::batch::{BatchJob, BatchProcessingConfig, Error as BatchError, JobStatus, JobStatusRecord, JobType};
use pulsar::rate_limiting::{Decision, EndpointPolicies, RateLimitError, RateLimiterState};
use pulsar::retry::backoff_secs;
use pulsar::subscription::{
    build_invoice, issue_invoice, processed_event_data, start_scheduler, BillingFrequency, Error as SubError,
    Subscription, SubscriptionConfig, SubscriptionStatus,
};

// ── Rate limiting ────────────────────────────────────────────────────────────

#[test]
fn whitelist_add_remove_and_errors() {
    let mut s = RateLimiterState::new();
    assert!(!s.is_whitelisted("u"));
    s.add_to_whitelist("u").unwrap();
    assert!(s.is_whitelisted("u"));
    assert_eq!(s.add_to_whitelist("u"), Err(RateLimitError::AlreadyWhitelisted));
    s.remove_from_whitelist("u").unwrap();
    assert_eq!(s.remove_from_whitelist("u"), Err(RateLimitError::NotWhitelisted));
    assert_eq!(RateLimitError::NotWhitelisted.to_string(), "Identity is not whitelisted");
}

#[test]
fn test_whitelist_bypasses_limit() {
    // A bucket of capacity 1 would deny all but the first; a trusted identity is never asked.
    let mut s = RateLimiterState::new();
    s.add_to_whitelist("trusted").unwrap();
    for _ in 0..100 {
        assert!(s.is_whitelisted("trusted"));
        let r = s.whitelisted(1);
        assert_eq!(r.decision, Decision::Allow);
    }
}

#[test]
fn test_violation_tracking() {
    let mut s = RateLimiterState::new();
    s.record_check("u", "/ep", 1, true, 0, 0);
    s.record_check("u", "/ep", 1, false, 0, 1); // denied
    assert_eq!(s.violations.by_identity.get("u").unwrap_or(0), 1);
    assert_eq!(s.violations.by_endpoint.get("/ep").unwrap_or(0), 1);
}

#[test]
fn test_whitelist_double_add_error() {
    let mut s = RateLimiterState::new();
    s.add_to_whitelist("u").unwrap();
    assert_eq!(s.add_to_whitelist("u").unwrap_err(), RateLimitError::AlreadyWhitelisted);
}

#[test]
fn test_remove_from_whitelist() {
    // A bucket of capacity 1: the first request takes the token, the second is denied.
    let mut s = RateLimiterState::new();
    s.add_to_whitelist("u").unwrap();
    s.remove_from_whitelist("u").unwrap();
    // Now limited again
    assert!(!s.is_whitelisted("u"));
    s.record_check("u", "/ep", 1, true, 0, 0);
    let r = s.record_check("u", "/ep", 1, false, 0, 1);
    assert_eq!(r.decision, Decision::Deny);
}

#[test]
fn endpoint_policies_fall_back_to_the_default() {
    let mut p = EndpointPolicies::new(10u32);
    assert_eq!(*p.policy("/pay"), 10);
    p.set("/pay".to_string(), 3);
    assert_eq!(*p.policy("/pay"), 3);
    assert_eq!(*p.policy("/other"), 10);
    p.set("/pay".to_string(), 4);
    assert_eq!(*p.policy("/pay"), 4);
    let q = p.clone();
    assert_eq!(*q.policy("/pay"), 4);
    assert_eq!(*q.policy("/x"), 10);
}

#[test]
fn whitelisted_result_has_full_capacity() {
    let s = RateLimiterState::new();
    let r = s.whitelisted(5);
    assert_eq!(r.decision, Decision::Allow);
    assert_eq!(r.headers.x_ratelimit_limit, 5);
    assert_eq!(r.headers.x_ratelimit_remaining, 5);
    assert_eq!(r.headers.retry_after_secs, None);
}

#[test]
fn denials_count_as_violations() {
    let mut s = RateLimiterState::new();
    let ok = s.record_check("u", "/ep", 1, true, 0, 0);
    assert_eq!(ok.decision, Decision::Allow);
    assert_eq!(ok.headers.retry_after_secs, None);
    let denied = s.record_check("u", "/ep", 1, false, 0, 1);
    assert_eq!(denied.decision, Decision::Deny);
    assert_eq!(denied.headers.retry_after_secs, Some(1));
    s.record_check("v", "/ep", 1, false, 0, 1);
    assert_eq!(s.violations.by_identity.get("u").unwrap_or(0), 1);
    assert_eq!(s.violations.by_identity.get("v").unwrap_or(0), 1);
    assert_eq!(s.violations.by_endpoint.get("/ep").unwrap_or(0), 2);
    assert_eq!(s.violations.by_endpoint.get("/other"), None);
}

// ── Retry back-off ───────────────────────────────────────────────────────────

#[test]
fn backoff_doubles_per_attempt() {
    assert_eq!(backoff_secs(60, 0), 60);
    assert_eq!(backoff_secs(60, 3), 480);
    let c = BatchProcessingConfig::default();
    assert_eq!(c.get_retry_delay(2), 240);
    let s = SubscriptionConfig::default();
    assert_eq!(s.get_retry_delay(1), 600);
}

// ── Batch processing ─────────────────────────────────────────────────────────

#[test]
fn batch_defaults_and_policy() {
    let c = BatchProcessingConfig::default();
    assert_eq!(c.batch_size, 1000);
    assert_eq!(c.archival_schedule, "0 2 * * *");
    assert_eq!(c.status_after_failure(2), JobStatus::Retrying);
    assert_eq!(c.status_after_failure(3), JobStatus::Failed);
    assert_eq!(c.scheduled_jobs(), vec![JobType::Archival, JobType::Cleanup, JobType::StatsAggregation]);
    let mut c2 = c.clone();
    c2.enable_cleanup = false;
    assert_eq!(c2.scheduled_jobs(), vec![JobType::Archival, JobType::StatsAggregation]);
}

#[test]
fn job_names_round_trip() {
    for t in [JobType::Archival, JobType::Cleanup, JobType::StatsAggregation] {
        assert_eq!(JobType::from_str(t.as_str()), Ok(t));
    }
    for s in [JobStatus::Pending, JobStatus::Running, JobStatus::Completed, JobStatus::Failed, JobStatus::Retrying, JobStatus::Cancelled] {
        assert_eq!(JobStatus::from_str(s.as_str()), Ok(s));
    }
    assert_eq!(JobType::StatsAggregation.as_str(), "stats_aggregation");
    assert!(JobStatus::Cancelled.is_final());
    assert!(!JobStatus::Retrying.is_final());
    assert_eq!(JobType::from_str("nope"), Err(BatchError::InvalidJobType("nope".into())));
    assert_eq!(JobStatus::from_str("done"), Err(BatchError::InvalidJobType("done".into())));
    assert_eq!(BatchError::JobNotFound("j".into()).to_string(), "Job not found: j");
}

#[test]
fn new_jobs() {
    let j = BatchJob::new(JobType::Cleanup, 10);
    assert_eq!(j.id.len(), 36);
    assert_eq!(j.parameters, "{}");
    assert_eq!(j.items_processed, 0);
    let k = BatchJob::with_parameters(JobType::Archival, 5, "{\"days\":90}".into());
    assert_ne!(j.id, k.id);
    assert_eq!(k.parameters, "{\"days\":90}");
    let r = JobStatusRecord::new("j1".into());
    assert_eq!(r.status, JobStatus::Pending);
    assert_eq!(r.attempt, 0);
    assert!(pulsar::batch::start_scheduler(true).is_err());
    assert_eq!(pulsar::batch::start_scheduler(false), Ok(true));
}

// ── Subscriptions ────────────────────────────────────────────────────────────

#[test]
fn frequencies_and_statuses() {
    assert_eq!(BillingFrequency::Quarterly.days(), 90);
    assert_eq!(BillingFrequency::BiWeekly.as_str(), "biweekly");
    assert_eq!(BillingFrequency::from_db("annually"), BillingFrequency::Annually);
    assert_eq!(BillingFrequency::from_db("yearly"), BillingFrequency::Monthly);
    assert_eq!(SubscriptionStatus::from_db("past_due"), SubscriptionStatus::PastDue);
    assert_eq!(SubscriptionStatus::from_db("??"), SubscriptionStatus::Active);
    assert_eq!(SubscriptionStatus::PendingPayment.to_string(), "pending_payment");
}

#[test]
fn new_subscription_is_billed_one_period_later() {
    let s = Subscription::new_at(
        "S1".into(),
        "M".into(),
        "C".into(),
        "9.99".into(),
        "USD".into(),
        BillingFrequency::Weekly,
        UtcTime { secs: 1_000_000, nanos: 250_000_000 },
    );
    assert_eq!(s.status, SubscriptionStatus::Active);
    assert_eq!(s.next_payment_at, UtcTime { secs: 1_000_000 + 7 * 86_400, nanos: 250_000_000 });
    assert_eq!(s.started_at, UtcTime { secs: 1_000_000, nanos: 250_000_000 });
    assert_eq!(s.metadata, "{}");
    let t = Subscription::new("M".into(), "C".into(), "1".into(), "EUR".into(), BillingFrequency::Daily);
    assert_eq!(t.id.len(), 36);
    assert_eq!(t.next_payment_at.secs - t.started_at.secs, 86_400);
    assert_eq!(t.next_payment_at.nanos, t.started_at.nanos);
    assert!(t.started_at.nanos < 1_000_000_000);
    assert_eq!(t.created_at, t.started_at);
}

#[test]
fn invoices() {
    // 2015-05-15T00:00:00Z
    let at = UtcTime { secs: 1_431_648_000, nanos: 999_999_999 };
    let inv = build_invoice("I1".into(), "sub-1234567890", "M".into(), "C".into(), "5".into(), "USD".into(), at);
    assert_eq!(inv.invoice_number, "INV-sub-1234-20150515");
    assert_eq!(inv.due_date, UtcTime { secs: 1_431_648_000 + 30 * 86_400, nanos: 999_999_999 });
    assert_eq!(inv.invoice_date, at);
    assert_eq!(inv.status, "issued");
    assert_eq!(inv.line_items.len(), 1);
    assert_eq!(inv.line_items[0].description, "Subscription Payment");
    let short = build_invoice("I2".into(), "ab", "M".into(), "C".into(), "5".into(), "USD".into(), UtcTime { secs: 0, nanos: 0 });
    assert_eq!(short.invoice_number, "INV-ab-19700101");
    let now = issue_invoice("s", "M".into(), "C".into(), "1".into(), "USD".into());
    assert_eq!(now.id.len(), 36);
    assert!(now.invoice_number.starts_with("INV-s-"));
}

#[test]
fn processing_events_and_scheduler() {
    assert_eq!(processed_event_data(0), None);
    assert_eq!(processed_event_data(12), Some("{\"count\":12}".to_string()));
    assert_eq!(start_scheduler(false), Ok(true));
    assert_eq!(
        start_scheduler(true).unwrap_err().to_string(),
        "Scheduling error: Scheduler is already running"
    );
    assert_eq!(SubError::SubscriptionNotFound("x".into()).to_string(), "Subscription not found: x");
}

// ── Analytics ────────────────────────────────────────────────────────────────

#[test]
fn search_result_envelope_and_limits() {
    let r = SearchResult::new(vec![1, 2, 3], "coffee", 7);
    assert_eq!(r.total_count, 3);
    assert_eq!(r.query, "coffee");
    assert_eq!(part_limit(10), 3);
    assert_eq!(part_limit(-10), -3);
    let s = Synonym { term: "pay".into(), synonyms: vec!["payment".into()] };
    assert_eq!(s.synonyms.len(), 1);
}
