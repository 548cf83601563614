use pulsar::reconciliation::{
    AlertHandler, ChainTransaction, DbRecord, DiscrepancyKind, ReconciliationService, RecordStatus,
    RecoveryOutcome, TxStatus,
};

struct NoopAlert;
impl AlertHandler for NoopAlert {
    fn send_alert(&self, _: &str) {}
}

fn svc() -> ReconciliationService {
    ReconciliationService::new(Box::new(NoopAlert))
}

fn chain_tx(tx_id: &str, status: TxStatus, amount: u128) -> ChainTransaction {
    ChainTransaction {
        tx_id: tx_id.to_owned(),
        status,
        amount,
        from: "A".into(),
        to: "B".into(),
        block_number: 1,
    }
}

fn db_record(id: &str, tx_id: Option<&str>, status: RecordStatus, amount: u128) -> DbRecord {
    DbRecord { record_id: id.to_owned(), tx_id: tx_id.map(str::to_owned), status, amount }
}

#[test]
fn test_no_discrepancies() {
    let mut svc = svc();
    svc.db.insert("R1".into(), db_record("R1", Some("TX1"), RecordStatus::Completed, 100));
    let chain = vec![chain_tx("TX1", TxStatus::Confirmed, 100)];
    let report = svc.run_reconciliation("job1", &chain);
    assert_eq!(report.discrepancy_count(), 0);
    assert_eq!(report.alerts.len(), 0);
}

#[test]
fn test_amount_mismatch_detected() {
    let mut svc = svc();
    svc.db.insert("R1".into(), db_record("R1", Some("TX1"), RecordStatus::Completed, 100));
    let chain = vec![chain_tx("TX1", TxStatus::Confirmed, 200)];
    let report = svc.run_reconciliation("job1", &chain);
    assert_eq!(report.discrepancy_count(), 1);
    assert_eq!(report.discrepancies[0].kind, DiscrepancyKind::AmountMismatch);
    assert!(report.discrepancies[0].critical);
}

#[test]
fn test_status_mismatch_auto_recovered() {
    let mut svc = svc();
    svc.db.insert("R1".into(), db_record("R1", Some("TX1"), RecordStatus::Pending, 100));
    let chain = vec![chain_tx("TX1", TxStatus::Confirmed, 100)];
    let report = svc.run_reconciliation("job1", &chain);
    assert_eq!(report.discrepancy_count(), 1);
    assert_eq!(report.discrepancies[0].kind, DiscrepancyKind::StatusMismatch);
    assert!(report.discrepancies[0].auto_recoverable);
    assert_eq!(report.fixed_count(), 1);
}

#[test]
fn test_missing_on_chain_critical() {
    let mut svc = svc();
    svc.db.insert("R1".into(), db_record("R1", Some("TX_GONE"), RecordStatus::Completed, 100));
    let chain: Vec<ChainTransaction> = vec![];
    let report = svc.run_reconciliation("job1", &chain);
    let d = &report.discrepancies[0];
    assert_eq!(d.kind, DiscrepancyKind::MissingOnChain);
    assert!(d.critical);
    assert_eq!(report.alerts.len(), 1);
}

#[test]
fn test_missing_in_database() {
    let svc = &mut svc();
    let chain = vec![chain_tx("TX_ORPHAN", TxStatus::Confirmed, 50)];
    let report = svc.run_reconciliation("job1", &chain);
    let d = &report.discrepancies[0];
    assert_eq!(d.kind, DiscrepancyKind::MissingInDatabase);
    assert!(d.critical);
}

#[test]
fn test_verify_transaction_status() {
    let mut svc = svc();
    svc.db.insert("R1".into(), db_record("R1", Some("TX1"), RecordStatus::Pending, 100));
    let chain_tx = chain_tx("TX1", TxStatus::Confirmed, 100);
    let d = svc.verify_transaction_status("TX1", Some(&chain_tx));
    assert!(d.is_some());
    assert_eq!(d.unwrap().kind, DiscrepancyKind::StatusMismatch);
}

#[test]
fn test_report_metadata() {
    let mut svc = svc();
    svc.db.insert("R1".into(), db_record("R1", Some("TX1"), RecordStatus::Completed, 100));
    let chain = vec![chain_tx("TX1", TxStatus::Confirmed, 100)];
    let report = svc.run_reconciliation("job-abc", &chain);
    assert_eq!(report.job_id, "job-abc");
    assert_eq!(report.records_checked, 1);
    assert_eq!(report.chain_txs_checked, 1);
    assert!(report.finished_at >= report.started_at);
}

#[test]
fn test_db_record_no_tx_id_is_critical() {
    let mut svc = svc();
    svc.db.insert("R1".into(), db_record("R1", None, RecordStatus::Completed, 100));
    let report = svc.run_reconciliation("job1", &[]);
    assert_eq!(report.discrepancies[0].kind, DiscrepancyKind::MissingOnChain);
    assert!(report.discrepancies[0].critical);
}

#[test]
fn details_and_alert_texts() {
    let mut svc = svc();
    svc.db.insert("R1".into(), db_record("R1", Some("TX1"), RecordStatus::Pending, 100));
    svc.db.insert("R2".into(), db_record("R2", Some("TX9"), RecordStatus::Completed, 5));
    let chain = vec![chain_tx("TX1", TxStatus::Confirmed, 1234567), chain_tx("TX7", TxStatus::Failed, 1)];
    let report = svc.run_reconciliation("j", &chain);
    let kinds: Vec<DiscrepancyKind> = report.discrepancies.iter().map(|d| d.kind).collect();
    assert_eq!(
        kinds,
        vec![
            DiscrepancyKind::AmountMismatch,
            DiscrepancyKind::StatusMismatch,
            DiscrepancyKind::MissingOnChain,
            DiscrepancyKind::MissingInDatabase
        ]
    );
    assert_eq!(report.discrepancies[0].details, "DB amount 100 \u{2260} chain amount 1234567");
    assert_eq!(report.discrepancies[1].details, "DB status Pending \u{2260} chain status Confirmed");
    assert_eq!(report.discrepancies[2].details, "tx_id TX9 not found on chain");
    assert_eq!(report.discrepancies[3].details, "on-chain tx TX7 has no matching DB record");
    assert_eq!(report.alerts.len(), 3);
    assert_eq!(report.alerts[0], "[amount_mismatch] critical discrepancy on record R1: DB amount 100 \u{2260} chain amount 1234567");
    assert_eq!(report.fixed_count(), 1);
    assert_eq!(report.unresolved_count(), 3);
    assert_eq!(report.recovery_actions.len(), 4);
    assert_eq!(report.recovery_actions[1].outcome, RecoveryOutcome::Fixed);
    assert_eq!(report.recovery_actions[0].outcome, RecoveryOutcome::Skipped);
    assert_eq!(DiscrepancyKind::MissingInDatabase.to_string(), "missing_in_database");
}

#[test]
fn verify_status_matching_record_gives_none() {
    let mut svc = svc();
    svc.db.insert("R1".into(), db_record("R1", Some("TX1"), RecordStatus::Failed, 100));
    let c = chain_tx("TX1", TxStatus::Failed, 100);
    assert!(svc.verify_transaction_status("TX1", Some(&c)).is_none());
    assert!(svc.verify_transaction_status("TX2", Some(&c)).is_none());
    assert!(svc.verify_transaction_status("TX1", None).is_none());
    let p = chain_tx("TX1", TxStatus::Pending, 100);
    assert_eq!(svc.verify_transaction_status("TX1", Some(&p)).unwrap().details, "DB has Failed, chain has Pending");
}

#[test]
fn alert_lines_are_prefixed() {
    assert_eq!(pulsar::reconciliation::alert_line("tx 9 missing"), "[ALERT] tx 9 missing");
}

struct RecordingAlert {
    sent: std::rc::Rc<std::cell::RefCell<Vec<String>>>,
}
impl AlertHandler for RecordingAlert {
    fn send_alert(&self, message: &str) {
        self.sent.borrow_mut().push(message.to_owned());
    }
}

#[test]
fn handler_receives_each_critical_alert() {
    let sent = std::rc::Rc::new(std::cell::RefCell::new(Vec::new()));
    let mut svc = ReconciliationService::new(Box::new(RecordingAlert { sent: sent.clone() }));
    svc.db.insert("R1".into(), db_record("R1", Some("TX1"), RecordStatus::Pending, 100));
    svc.db.insert("R2".into(), db_record("R2", None, RecordStatus::Completed, 5));
    let chain = vec![chain_tx("TX1", TxStatus::Confirmed, 100)];
    let report = svc.run_reconciliation("j", &chain);
    assert_eq!(report.discrepancies.len(), 2);
    assert_eq!(report.alerts.len(), 1);
    assert_eq!(*sent.borrow(), report.alerts);
}
