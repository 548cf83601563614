//! Reconciliation: compares on-chain transactions with database records,
//! detects discrepancies, recovers what can be recovered automatically,
//! raises alerts for critical issues and reports on the run.
use std::io::Write;
use vstd::prelude::*;
use vstd::string::StringExecFns;

use crate::table::{index_of_key, Keyed, Table};
use crate::text::{concat3, concat4, decimal, u128_to_decimal};

verus! {

// ── Domain types ───────────────────────────────────────────────────────────

/// An on-chain transaction as a block explorer reports it.
#[derive(Debug, Clone, PartialEq)]
pub struct ChainTransaction {
    pub tx_id: String,
    pub status: TxStatus,
    pub amount: u128,
    pub from: String,
    pub to: String,
    pub block_number: u64,
}

/// A database record of a payment or refund.
#[derive(Debug, Clone, PartialEq)]
pub struct DbRecord {
    pub record_id: String,
    pub tx_id: Option<String>,
    pub status: RecordStatus,
    pub amount: u128,
}

#[derive(Debug, Clone, Copy, PartialEq, Eq, Structural)]
pub enum TxStatus {
    Confirmed,
    Pending,
    Failed,
}

#[derive(Debug, Clone, Copy, PartialEq, Eq, Structural)]
pub enum RecordStatus {
    Completed,
    Pending,
    Failed,
    Missing,
}

#[derive(Debug, Clone, Copy, PartialEq, Eq, Structural)]
pub enum DiscrepancyKind {
    /// A database record with no matching on-chain transaction.
    MissingOnChain,
    /// An on-chain transaction with no matching database record.
    MissingInDatabase,
    /// The database amount differs from the on-chain amount.
    AmountMismatch,
    /// The database status differs from the on-chain status.
    StatusMismatch,
}

/// The label of a discrepancy kind, as its `Display` prints it.
pub open spec fn kind_label(k: DiscrepancyKind) -> Seq<char> {
    match k {
        DiscrepancyKind::MissingOnChain => "missing_on_chain"@,
        DiscrepancyKind::MissingInDatabase => "missing_in_database"@,
        DiscrepancyKind::AmountMismatch => "amount_mismatch"@,
        DiscrepancyKind::StatusMismatch => "status_mismatch"@,
    }
}

impl DiscrepancyKind {
    /// The label of the kind (`missing_on_chain`, ...).
    pub fn label(&self) -> (r: &'static str)
        ensures
            r@ == kind_label(*self),
    {
        match self {
            DiscrepancyKind::MissingOnChain => "missing_on_chain",
            DiscrepancyKind::MissingInDatabase => "missing_in_database",
            DiscrepancyKind::AmountMismatch => "amount_mismatch",
            DiscrepancyKind::StatusMismatch => "status_mismatch",
        }
    }

    /// The label of the kind, as an owned string.
    pub fn to_string(&self) -> (r: String)
        ensures
            r@ == kind_label(*self),
    {
        String::from_str(self.label())
    }
}

/// A discrepancy found by a run.
#[derive(Debug, Clone)]
pub struct Discrepancy {
    pub record_id: String,
    pub kind: DiscrepancyKind,
    pub details: String,
    /// Whether it can be fixed automatically.
    pub auto_recoverable: bool,
    /// Whether it raises an alert.
    pub critical: bool,
}

/// A discrepancy as plain values: record id, kind, details, recoverable, critical.
pub type DiscrepancyView = (Seq<char>, DiscrepancyKind, Seq<char>, bool, bool);

impl View for Discrepancy {
    type V = DiscrepancyView;

    open spec fn view(&self) -> DiscrepancyView {
        (self.record_id@, self.kind, self.details@, self.auto_recoverable, self.critical)
    }
}

#[derive(Debug, Clone, PartialEq, Eq)]
pub enum RecoveryOutcome {
    Fixed,
    Skipped,
    Failed(String),
}

/// What recovery did about one discrepancy.
#[derive(Debug, Clone)]
pub struct RecoveryAction {
    pub record_id: String,
    pub discrepancy_kind: DiscrepancyKind,
    pub outcome: RecoveryOutcome,
}

/// A recovery action as plain values: record id, kind, outcome.
pub type RecoveryView = (Seq<char>, DiscrepancyKind, RecoveryOutcome);

impl View for RecoveryAction {
    type V = RecoveryView;

    open spec fn view(&self) -> RecoveryView {
        (self.record_id@, self.discrepancy_kind, self.outcome)
    }
}

// ── Report ─────────────────────────────────────────────────────────────────

/// The result of one reconciliation run.
#[derive(Debug, Clone)]
pub struct ReconciliationReport {
    pub job_id: String,
    pub started_at: u64,
    pub finished_at: u64,
    pub records_checked: usize,
    pub chain_txs_checked: usize,
    pub discrepancies: Vec<Discrepancy>,
    pub recovery_actions: Vec<RecoveryAction>,
    pub alerts: Vec<String>,
}

/// Number of fixed actions in `acts`.
pub open spec fn count_fixed(acts: Seq<RecoveryAction>) -> nat
    decreases acts.len(),
{
    if acts.len() == 0 {
        0
    } else {
        count_fixed(acts.drop_last()) + if acts.last().outcome is Fixed {
            1nat
        } else {
            0nat
        }
    }
}

impl ReconciliationReport {
    /// Number of discrepancies found.
    pub fn discrepancy_count(&self) -> (n: usize)
        ensures
            n == self.discrepancies.len(),
    {
        self.discrepancies.len()
    }

    /// Number of recovery actions that fixed their discrepancy.
    pub fn fixed_count(&self) -> (n: usize)
        ensures
            n == count_fixed(self.recovery_actions@),
    {
        let mut n: usize = 0;
        let mut i: usize = 0;
        while i < self.recovery_actions.len()
            invariant
                i <= self.recovery_actions.len(),
                n == count_fixed(self.recovery_actions@.take(i as int)),
                n <= i,
            decreases self.recovery_actions.len() - i,
        {
            assert(self.recovery_actions@.take(i + 1).drop_last() =~= self.recovery_actions@.take(
                i as int,
            ));
            if let RecoveryOutcome::Fixed = self.recovery_actions[i].outcome {
                n = n + 1;
            }
            i = i + 1;
        }
        assert(self.recovery_actions@.take(i as int) =~= self.recovery_actions@);
        n
    }

    /// Discrepancies left unfixed.
    pub fn unresolved_count(&self) -> (n: usize)
        requires
            count_fixed(self.recovery_actions@) <= self.discrepancies.len(),
        ensures
            n == self.discrepancies.len() - count_fixed(self.recovery_actions@),
    {
        self.discrepancy_count() - self.fixed_count()
    }
}

// ── Alerts ─────────────────────────────────────────────────────────────────

/// Receives the alerts raised for critical discrepancies.
pub trait AlertHandler {
    fn send_alert(&self, message: &str);
}

/// An alert handler that writes each alert to standard error.
pub struct LogAlertHandler;

/// Writes `line` and a newline to standard error, as `eprintln!` does
/// (a failed write is ignored).
#[verifier::external_body]
fn write_stderr_line(line: &str) {
    let _ = writeln!(std::io::stderr(), "{}", line);
}

/// The line an alert is logged as: `[ALERT] ` and the message.
pub fn alert_line(message: &str) -> (r: String)
    ensures
        r@ == "[ALERT] "@ + message@,
{
    crate::text::concat2("[ALERT] ", message)
}

impl AlertHandler for LogAlertHandler {
    fn send_alert(&self, message: &str) {
        let line = alert_line(message);
        write_stderr_line(line.as_str());
    }
}

// ── Database ───────────────────────────────────────────────────────────────

/// A keyed database row.
pub struct DbRow {
    pub key: String,
    pub record: DbRecord,
}

impl Keyed for DbRow {
    type K = str;

    open spec fn key_view(&self) -> Seq<char> {
        self.key@
    }

    fn key_str(&self) -> (r: &str) {
        self.key.as_str()
    }

    fn same_key(a: &str, b: &str) -> (r: bool) {
        crate::table::str_eq(a, b)
    }
}

/// The in-memory database of records, by record key, in insertion order.
pub struct RecordDb {
    table: Table<DbRow>,
}

impl RecordDb {
    pub closed spec fn wf(&self) -> bool {
        self.table.wf()
    }

    /// The records in insertion order.
    pub closed spec fn records(&self) -> Seq<DbRecord> {
        self.table.entries().map_values(|r: DbRow| r.record)
    }

    /// The keys of the records, in the same order.
    pub closed spec fn keys(&self) -> Seq<Seq<char>> {
        self.table.entries().map_values(|r: DbRow| r.key@)
    }

    /// The records by key.
    pub closed spec fn view(&self) -> Map<Seq<char>, DbRecord> {
        self.table.view().map_values(|r: DbRow| r.record)
    }

    /// An empty database.
    pub fn new() -> (db: Self)
        ensures
            db.wf(),
            db.records() == Seq::<DbRecord>::empty(),
            db.keys() == Seq::<Seq<char>>::empty(),
            db@ == Map::<Seq<char>, DbRecord>::empty(),
    {
        let db = RecordDb { table: Table::new() };
        assert(db.records() =~= Seq::<DbRecord>::empty());
        assert(db.keys() =~= Seq::<Seq<char>>::empty());
        assert(db@ =~= Map::<Seq<char>, DbRecord>::empty());
        db
    }

    /// Number of records.
    pub fn len(&self) -> (n: usize)
        ensures
            n == self.records().len(),
    {
        self.table.len()
    }

    /// Stores `record` under `key`: a new key appends it at the end, an
    /// existing key has its record replaced in place.
    pub fn insert(&mut self, key: String, record: DbRecord)
        requires
            old(self).wf(),
        ensures
            final(self).wf(),
            final(self).view() == old(self).view().insert(key@, record),
            !old(self).keys().contains(key@) ==> final(self).records() == old(self).records().push(
                record,
            ) && final(self).keys() == old(self).keys().push(key@),
            old(self).keys().contains(key@) ==> final(self).keys() == old(self).keys()
                && exists|i: int|
                0 <= i < old(self).keys().len() && old(self).keys()[i] == key@
                    && final(self).records() == old(self).records().update(i, record),
    {
        let ghost k = key@;
        let ghost old_tv = self.table.view();
        let ghost old_e = self.table.entries();
        proof {
            self.table.lemma_view();
            if old(self).keys().contains(k) {
                let j = choose|j: int| 0 <= j < old(self).keys().len() && old(self).keys()[j] == k;
                assert(old_e[j].key_view() == k);
            }
            if old_tv.dom().contains(k) {
                crate::table::lemma_index_of_key(old_e, k);
                let j = index_of_key(old_e, k)->0;
                assert(old(self).keys()[j] == k);
            }
        }
        let row = DbRow { key, record };
        self.table.upsert(row);
        proof {
            assert(self.table.view().map_values(|r: DbRow| r.record) =~= old_tv.map_values(
                |r: DbRow| r.record,
            ).insert(k, record));
            if old_tv.dom().contains(k) {
                let j = index_of_key(old_e, k)->0;
                assert(self.records() =~= old(self).records().update(j, record));
                assert(self.keys() =~= old(self).keys());
            } else {
                assert(self.records() =~= old(self).records().push(record));
                assert(self.keys() =~= old(self).keys().push(k));
            }
        }
    }

    /// The record stored under `key`.
    pub fn get(&self, key: &str) -> (r: Option<&DbRecord>)
        requires
            self.wf(),
        ensures
            match r {
                Some(v) => self.view().dom().contains(key@) && *v == self.view()[key@],
                None => !self.view().dom().contains(key@),
            },
    {
        match self.table.get(key) {
            Some(row) => Some(&row.record),
            None => None,
        }
    }

    /// The `i`-th record in insertion order.
    pub fn record_at(&self, i: usize) -> (r: &DbRecord)
        requires
            i < self.records().len(),
        ensures
            *r == self.records()[i as int],
    {
        &self.table.at(i).record
    }
}

// ── Specification of a run ─────────────────────────────────────────────────

/// The record status that an on-chain status corresponds to.
pub open spec fn expected_status(s: TxStatus) -> RecordStatus {
    match s {
        TxStatus::Confirmed => RecordStatus::Completed,
        TxStatus::Pending => RecordStatus::Pending,
        TxStatus::Failed => RecordStatus::Failed,
    }
}

/// `Debug` name of a record status.
pub open spec fn record_status_name(s: RecordStatus) -> Seq<char> {
    match s {
        RecordStatus::Completed => "Completed"@,
        RecordStatus::Pending => "Pending"@,
        RecordStatus::Failed => "Failed"@,
        RecordStatus::Missing => "Missing"@,
    }
}

/// `Debug` name of an on-chain status.
pub open spec fn tx_status_name(s: TxStatus) -> Seq<char> {
    match s {
        TxStatus::Confirmed => "Confirmed"@,
        TxStatus::Pending => "Pending"@,
        TxStatus::Failed => "Failed"@,
    }
}

fn record_status_str(s: RecordStatus) -> (r: &'static str)
    ensures
        r@ == record_status_name(s),
{
    match s {
        RecordStatus::Completed => "Completed",
        RecordStatus::Pending => "Pending",
        RecordStatus::Failed => "Failed",
        RecordStatus::Missing => "Missing",
    }
}

fn tx_status_str(s: TxStatus) -> (r: &'static str)
    ensures
        r@ == tx_status_name(s),
{
    match s {
        TxStatus::Confirmed => "Confirmed",
        TxStatus::Pending => "Pending",
        TxStatus::Failed => "Failed",
    }
}

fn expected_status_of(s: TxStatus) -> (r: RecordStatus)
    ensures
        r == expected_status(s),
{
    match s {
        TxStatus::Confirmed => RecordStatus::Completed,
        TxStatus::Pending => RecordStatus::Pending,
        TxStatus::Failed => RecordStatus::Failed,
    }
}

/// The on-chain transaction with id `id`: the last one listed, as a map
/// built from the list keeps the last.
pub open spec fn chain_lookup(chain: Seq<ChainTransaction>, id: Seq<char>) -> Option<
    ChainTransaction,
>
    decreases chain.len(),
{
    if chain.len() == 0 {
        None
    } else if chain.last().tx_id@ == id {
        Some(chain.last())
    } else {
        chain_lookup(chain.drop_last(), id)
    }
}

/// Some record refers to transaction `id`.
pub open spec fn has_record(records: Seq<DbRecord>, id: Seq<char>) -> bool {
    exists|i: int| #![trigger records[i]]
        0 <= i < records.len() && records[i].tx_id is Some && records[i].tx_id->0@ == id
}

/// Details text of an amount mismatch.
pub open spec fn amount_details(db_amount: u128, chain_amount: u128) -> Seq<char> {
    "DB amount "@ + decimal(db_amount as nat) + " \u{2260} chain amount "@ + decimal(
        chain_amount as nat,
    )
}

/// Details text of a status mismatch found by a run.
pub open spec fn status_details(db: RecordStatus, chain: TxStatus) -> Seq<char> {
    "DB status "@ + record_status_name(db) + " \u{2260} chain status "@ + tx_status_name(chain)
}

/// The discrepancies of one database record.
pub open spec fn record_findings(r: DbRecord, chain: Seq<ChainTransaction>) -> Seq<
    DiscrepancyView,
> {
    match r.tx_id {
        None => seq![
            (
                r.record_id@,
                DiscrepancyKind::MissingOnChain,
                "DB record has no associated tx_id"@,
                false,
                true,
            ),
        ],
        Some(tx_id) => match chain_lookup(chain, tx_id@) {
            None => seq![
                (
                    r.record_id@,
                    DiscrepancyKind::MissingOnChain,
                    "tx_id "@ + tx_id@ + " not found on chain"@,
                    false,
                    true,
                ),
            ],
            Some(c) => (if r.amount != c.amount {
                seq![
                    (
                        r.record_id@,
                        DiscrepancyKind::AmountMismatch,
                        amount_details(r.amount, c.amount),
                        false,
                        true,
                    ),
                ]
            } else {
                Seq::empty()
            }) + (if r.status != expected_status(c.status) {
                seq![
                    (
                        r.record_id@,
                        DiscrepancyKind::StatusMismatch,
                        status_details(r.status, c.status),
                        true,
                        false,
                    ),
                ]
            } else {
                Seq::empty()
            }),
        },
    }
}

/// Discrepancies of the database records, record by record.
pub open spec fn db_findings(records: Seq<DbRecord>, chain: Seq<ChainTransaction>) -> Seq<
    DiscrepancyView,
>
    decreases records.len(),
{
    if records.len() == 0 {
        Seq::empty()
    } else {
        db_findings(records.drop_last(), chain) + record_findings(records.last(), chain)
    }
}

/// On-chain transactions with no database record, in chain order.
pub open spec fn orphan_findings(chain: Seq<ChainTransaction>, records: Seq<DbRecord>) -> Seq<
    DiscrepancyView,
>
    decreases chain.len(),
{
    if chain.len() == 0 {
        Seq::empty()
    } else {
        orphan_findings(chain.drop_last(), records) + if has_record(records, chain.last().tx_id@) {
            Seq::empty()
        } else {
            seq![
                (
                    chain.last().tx_id@,
                    DiscrepancyKind::MissingInDatabase,
                    "on-chain tx "@ + chain.last().tx_id@ + " has no matching DB record"@,
                    false,
                    true,
                ),
            ]
        }
    }
}

/// All discrepancies of a run.
pub open spec fn detect_spec(records: Seq<DbRecord>, chain: Seq<ChainTransaction>) -> Seq<
    DiscrepancyView,
> {
    db_findings(records, chain) + orphan_findings(chain, records)
}

/// Recovery actions for a list of discrepancies: a discrepancy that cannot
/// be recovered is skipped, a recoverable status mismatch is fixed, and
/// other recoverable discrepancies get no action.
pub open spec fn recover_spec(ds: Seq<DiscrepancyView>) -> Seq<RecoveryView>
    decreases ds.len(),
{
    if ds.len() == 0 {
        Seq::empty()
    } else {
        let d = ds.last();
        recover_spec(ds.drop_last()) + if !d.3 {
            seq![(d.0, d.1, RecoveryOutcome::Skipped)]
        } else if d.1 == DiscrepancyKind::StatusMismatch {
            seq![(d.0, d.1, RecoveryOutcome::Fixed)]
        } else {
            Seq::empty()
        }
    }
}

/// The alert message of a critical discrepancy.
pub open spec fn alert_message(d: DiscrepancyView) -> Seq<char> {
    "["@ + kind_label(d.1) + "] critical discrepancy on record "@ + d.0 + ": "@ + d.2
}

/// Alert messages for a list of discrepancies.
pub open spec fn alerts_spec(ds: Seq<DiscrepancyView>) -> Seq<Seq<char>>
    decreases ds.len(),
{
    if ds.len() == 0 {
        Seq::empty()
    } else {
        alerts_spec(ds.drop_last()) + if ds.last().4 {
            seq![alert_message(ds.last())]
        } else {
            Seq::empty()
        }
    }
}

/// The first record (in database order) that refers to transaction `id`.
pub open spec fn first_record_with_tx(records: Seq<DbRecord>, id: Seq<char>) -> Option<int>
    decreases records.len(),
{
    if records.len() == 0 {
        None
    } else if records[0].tx_id is Some && records[0].tx_id->0@ == id {
        Some(0)
    } else {
        match first_record_with_tx(records.drop_first(), id) {
            Some(i) => Some(i + 1),
            None => None,
        }
    }
}

/// Views of a vector of discrepancies.
pub open spec fn views(ds: Seq<Discrepancy>) -> Seq<DiscrepancyView> {
    ds.map_values(|d: Discrepancy| d@)
}

/// Views of a vector of recovery actions.
pub open spec fn action_views(acts: Seq<RecoveryAction>) -> Seq<RecoveryView> {
    acts.map_values(|a: RecoveryAction| a@)
}

/// Views of a vector of strings.
pub open spec fn string_views(ss: Seq<String>) -> Seq<Seq<char>> {
    ss.map_values(|s: String| s@)
}

fn same_tx_id(tx: &Option<String>, id: &str) -> (r: bool)
    ensures
        r == (tx is Some && tx->0@ == id@),
{
    match tx {
        Some(t) => crate::table::str_eq(t.as_str(), id),
        None => false,
    }
}

// ── Service ────────────────────────────────────────────────────────────────

/// Reconciles the database with the chain.
pub struct ReconciliationService {
    alert_handler: Box<dyn AlertHandler>,
    /// The in-memory database of records.
    pub db: RecordDb,
}

impl ReconciliationService {
    /// The service's database.
    pub closed spec fn database(&self) -> RecordDb {
        self.db
    }

    /// The database is well formed.
    pub open spec fn db_wf(&self) -> bool {
        self.database().wf()
    }

    /// The database records in order.
    pub open spec fn db_records(&self) -> Seq<DbRecord> {
        self.database().records()
    }

    /// The database records by key.
    pub open spec fn db_view(&self) -> Map<Seq<char>, DbRecord> {
        self.database()@
    }

    /// The database, to read or change: what is done through the returned
    /// reference is what the service's database becomes.
    pub fn db_mut(&mut self) -> (r: &mut RecordDb)
        ensures
            *r == old(self).database(),
            final(self).database() == *final(r),
    {
        &mut self.db
    }

    /// A service with an empty database that reports alerts to `alert_handler`.
    pub fn new(alert_handler: Box<dyn AlertHandler>) -> (s: Self)
        ensures
            s.db_wf(),
            s.db_records() == Seq::<DbRecord>::empty(),
            s.db_view() == Map::<Seq<char>, DbRecord>::empty(),
            s.database().keys() == Seq::<Seq<char>>::empty(),
    {
        ReconciliationService { alert_handler, db: RecordDb::new() }
    }

    /// Runs a reconciliation job against `chain_txs`: detects the
    /// discrepancies, records the recovery actions, and raises an alert for
    /// each critical discrepancy.
    pub fn run_reconciliation(&mut self, job_id: &str, chain_txs: &[ChainTransaction]) -> (r:
        ReconciliationReport)
        requires
            old(self).db_wf(),
        ensures
            final(self).db_wf(),
            final(self).db_records() == old(self).db_records(),
            r.job_id@ == job_id@,
            r.records_checked == old(self).db_records().len(),
            r.chain_txs_checked == chain_txs@.len(),
            views(r.discrepancies@) == detect_spec(old(self).db_records(), chain_txs@),
            action_views(r.recovery_actions@) == recover_spec(
                detect_spec(old(self).db_records(), chain_txs@),
            ),
            string_views(r.alerts@) == alerts_spec(detect_spec(old(self).db_records(), chain_txs@)),
    {
        let started_at = crate::clock::now_secs();
        let job_id = String::from_str(job_id);
        let discrepancies = self.detect_discrepancies(chain_txs);
        let recovery_actions = self.recover(&discrepancies);
        let alerts = self.emit_alerts(&discrepancies);
        ReconciliationReport {
            job_id,
            started_at,
            finished_at: crate::clock::now_secs(),
            records_checked: self.db.len(),
            chain_txs_checked: chain_txs.len(),
            discrepancies,
            recovery_actions,
            alerts,
        }
    }

    /// The status discrepancy, if any, between the chain transaction and the
    /// first database record that refers to `tx_id`.
    pub fn verify_transaction_status(&self, tx_id: &str, chain_tx: Option<&ChainTransaction>) -> (r:
        Option<Discrepancy>)
        requires
            self.db_wf(),
        ensures
            match (first_record_with_tx(self.db_records(), tx_id@), chain_tx) {
                (Some(i), Some(c)) => {
                    let rec = self.db_records()[i];
                    if rec.status != expected_status(c.status) {
                        r is Some && r->0@ == (
                            rec.record_id@,
                            DiscrepancyKind::StatusMismatch,
                            "DB has "@ + record_status_name(rec.status) + ", chain has "@
                                + tx_status_name(c.status),
                            true,
                            false,
                        )
                    } else {
                        r is None
                    }
                },
                _ => r is None,
            },
    {
        let n = self.db.len();
        let mut i: usize = 0;
        assert(self.db_records().skip(0) =~= self.db_records());
        while i < n
            invariant
                n == self.db_records().len(),
                i <= n,
                first_record_with_tx(self.db_records(), tx_id@) == match first_record_with_tx(
                    self.db_records().skip(i as int),
                    tx_id@,
                ) {
                    Some(j) => Some(j + i),
                    None => None,
                },
            decreases n - i,
        {
            let rec = self.db.record_at(i);
            assert(self.db_records().skip(i as int)[0] == self.db_records()[i as int]);
            assert(self.db_records().skip(i as int).drop_first() =~= self.db_records().skip(
                i + 1,
            ));
            if same_tx_id(&rec.tx_id, tx_id) {
                return Self::status_discrepancy(rec, chain_tx);
            }
            i = i + 1;
        }
        assert(self.db_records().skip(i as int) =~= Seq::<DbRecord>::empty());
        None
    }

    fn status_discrepancy(db_record: &DbRecord, chain_tx: Option<&ChainTransaction>) -> (r: Option<
        Discrepancy,
    >)
        ensures
            match chain_tx {
                Some(c) => if db_record.status != expected_status(c.status) {
                    r is Some && r->0@ == (
                        db_record.record_id@,
                        DiscrepancyKind::StatusMismatch,
                        "DB has "@ + record_status_name(db_record.status) + ", chain has "@
                            + tx_status_name(c.status),
                        true,
                        false,
                    )
                } else {
                    r is None
                },
                None => r is None,
            },
    {
        let chain_tx = match chain_tx {
            Some(c) => c,
            None => return None,
        };
        let expected = expected_status_of(chain_tx.status);
        if db_record.status != expected {
            let details = concat4(
                "DB has ",
                record_status_str(db_record.status),
                ", chain has ",
                tx_status_str(chain_tx.status),
            );
            return Some(
                Discrepancy {
                    record_id: db_record.record_id.clone(),
                    kind: DiscrepancyKind::StatusMismatch,
                    details,
                    auto_recoverable: true,
                    critical: false,
                },
            );
        }
        None
    }

    fn find_chain_tx<'a>(chain_txs: &'a [ChainTransaction], id: &str) -> (r: Option<
        &'a ChainTransaction,
    >)
        ensures
            match r {
                Some(c) => chain_lookup(chain_txs@, id@) == Some(*c),
                None => chain_lookup(chain_txs@, id@) is None,
            },
    {
        let mut found: Option<&ChainTransaction> = None;
        let mut i: usize = 0;
        while i < chain_txs.len()
            invariant
                i <= chain_txs.len(),
                match found {
                    Some(c) => chain_lookup(chain_txs@.take(i as int), id@) == Some(*c),
                    None => chain_lookup(chain_txs@.take(i as int), id@) is None,
                },
            decreases chain_txs.len() - i,
        {
            assert(chain_txs@.take(i + 1).drop_last() =~= chain_txs@.take(i as int));
            if crate::table::str_eq(chain_txs[i].tx_id.as_str(), id) {
                found = Some(&chain_txs[i]);
            }
            i = i + 1;
        }
        assert(chain_txs@.take(i as int) =~= chain_txs@);
        found
    }

    fn record_discrepancies(record: &DbRecord, chain_txs: &[ChainTransaction], out: &mut Vec<
        Discrepancy,
    >)
        ensures
            views(final(out)@) == views(old(out)@) + record_findings(*record, chain_txs@),
    {
        let ghost before = out@;
        match &record.tx_id {
            None => {
                out.push(
                    Discrepancy {
                        record_id: record.record_id.clone(),
                        kind: DiscrepancyKind::MissingOnChain,
                        details: String::from_str("DB record has no associated tx_id"),
                        auto_recoverable: false,
                        critical: true,
                    },
                );
                assert(views(out@) =~= views(before) + record_findings(*record, chain_txs@));
            },
            Some(tx_id) => {
                match Self::find_chain_tx(chain_txs, tx_id.as_str()) {
                    None => {
                        out.push(
                            Discrepancy {
                                record_id: record.record_id.clone(),
                                kind: DiscrepancyKind::MissingOnChain,
                                details: concat3("tx_id ", tx_id.as_str(), " not found on chain"),
                                auto_recoverable: false,
                                critical: true,
                            },
                        );
                        assert(views(out@) =~= views(before) + record_findings(*record, chain_txs@));
                    },
                    Some(chain_tx) => {
                        if record.amount != chain_tx.amount {
                            let a = u128_to_decimal(record.amount);
                            let b = u128_to_decimal(chain_tx.amount);
                            let details = concat4(
                                "DB amount ",
                                a.as_str(),
                                " \u{2260} chain amount ",
                                b.as_str(),
                            );
                            out.push(
                                Discrepancy {
                                    record_id: record.record_id.clone(),
                                    kind: DiscrepancyKind::AmountMismatch,
                                    details,
                                    auto_recoverable: false,
                                    critical: true,
                                },
                            );
                        }
                        let ghost mid = out@;
                        assert(views(mid) =~= views(before) + (if record.amount != chain_tx.amount {
                            seq![
                                (
                                    record.record_id@,
                                    DiscrepancyKind::AmountMismatch,
                                    amount_details(record.amount, chain_tx.amount),
                                    false,
                                    true,
                                ),
                            ]
                        } else {
                            Seq::empty()
                        }));
                        let expected = expected_status_of(chain_tx.status);
                        if record.status != expected {
                            let details = concat4(
                                "DB status ",
                                record_status_str(record.status),
                                " \u{2260} chain status ",
                                tx_status_str(chain_tx.status),
                            );
                            out.push(
                                Discrepancy {
                                    record_id: record.record_id.clone(),
                                    kind: DiscrepancyKind::StatusMismatch,
                                    details,
                                    auto_recoverable: true,
                                    critical: false,
                                },
                            );
                        }
                        assert(views(out@) =~= views(before) + record_findings(*record, chain_txs@));
                    },
                }
            },
        }
    }

    fn has_record_for(&self, id: &str) -> (r: bool)
        requires
            self.db_wf(),
        ensures
            r == has_record(self.db_records(), id@),
    {
        let n = self.db.len();
        let mut i: usize = 0;
        while i < n
            invariant
                n == self.db_records().len(),
                i <= n,
                forall|j: int| #![trigger self.db_records()[j]]
                    0 <= j < i ==> !(self.db_records()[j].tx_id is Some
                        && self.db_records()[j].tx_id->0@ == id@),
            decreases n - i,
        {
            let rec = self.db.record_at(i);
            if same_tx_id(&rec.tx_id, id) {
                return true;
            }
            i = i + 1;
        }
        false
    }

    /// All discrepancies between the database and `chain_txs`: first those of
    /// each database record in database order, then the on-chain
    /// transactions that no record refers to.
    pub fn detect_discrepancies(&self, chain_txs: &[ChainTransaction]) -> (r: Vec<Discrepancy>)
        requires
            self.db_wf(),
        ensures
            views(r@) == detect_spec(self.db_records(), chain_txs@),
    {
        let mut out: Vec<Discrepancy> = Vec::new();
        let n = self.db.len();
        let mut i: usize = 0;
        while i < n
            invariant
                self.db_wf(),
                n == self.db_records().len(),
                i <= n,
                views(out@) == db_findings(self.db_records().take(i as int), chain_txs@),
            decreases n - i,
        {
            let ghost before = out@;
            let rec = self.db.record_at(i);
            Self::record_discrepancies(rec, chain_txs, &mut out);
            assert(self.db_records().take(i + 1).drop_last() =~= self.db_records().take(i as int));
            i = i + 1;
        }
        assert(self.db_records().take(n as int) =~= self.db_records());
        let ghost first_part = out@;
        let mut j: usize = 0;
        while j < chain_txs.len()
            invariant
                self.db_wf(),
                j <= chain_txs.len(),
                views(out@) == views(first_part) + orphan_findings(
                    chain_txs@.take(j as int),
                    self.db_records(),
                ),
            decreases chain_txs.len() - j,
        {
            let ghost before = out@;
            assert(chain_txs@.take(j + 1).drop_last() =~= chain_txs@.take(j as int));
            let tx = &chain_txs[j];
            assert(chain_txs@.take(j + 1).last() == chain_txs@[j as int]);
            if !self.has_record_for(tx.tx_id.as_str()) {
                out.push(
                    Discrepancy {
                        record_id: tx.tx_id.clone(),
                        kind: DiscrepancyKind::MissingInDatabase,
                        details: concat3(
                            "on-chain tx ",
                            tx.tx_id.as_str(),
                            " has no matching DB record",
                        ),
                        auto_recoverable: false,
                        critical: true,
                    },
                );
                assert(views(out@) =~= views(before).push(out@.last()@));
            } else {
                assert(views(out@) =~= views(before));
            }
            assert(views(out@) =~= views(first_part) + orphan_findings(
                chain_txs@.take(j + 1),
                self.db_records(),
            ));
            j = j + 1;
        }
        assert(chain_txs@.take(j as int) =~= chain_txs@);
        assert(views(out@) =~= detect_spec(self.db_records(), chain_txs@));
        out
    }

    /// Recovery actions for `discrepancies`: an unrecoverable one is
    /// skipped, a recoverable status mismatch is fixed.
    pub fn recover(&mut self, discrepancies: &[Discrepancy]) -> (r: Vec<RecoveryAction>)
        ensures
            final(self).db_records() == old(self).db_records(),
            final(self).db_wf() == old(self).db_wf(),
            action_views(r@) == recover_spec(views(discrepancies@)),
    {
        let mut actions: Vec<RecoveryAction> = Vec::new();
        let mut i: usize = 0;
        while i < discrepancies.len()
            invariant
                i <= discrepancies.len(),
                action_views(actions@) == recover_spec(views(discrepancies@.take(i as int))),
            decreases discrepancies.len() - i,
        {
            let ghost before = actions@;
            let d = &discrepancies[i];
            assert(views(discrepancies@.take(i + 1)).drop_last() =~= views(
                discrepancies@.take(i as int),
            ));
            assert(views(discrepancies@.take(i + 1)).last() == d@);
            if !d.auto_recoverable {
                actions.push(
                    RecoveryAction {
                        record_id: d.record_id.clone(),
                        discrepancy_kind: d.kind,
                        outcome: RecoveryOutcome::Skipped,
                    },
                );
            } else if d.kind == DiscrepancyKind::StatusMismatch {
                actions.push(
                    RecoveryAction {
                        record_id: d.record_id.clone(),
                        discrepancy_kind: d.kind,
                        outcome: RecoveryOutcome::Fixed,
                    },
                );
            }
            assert(action_views(actions@) =~= recover_spec(views(discrepancies@.take(i + 1))));
            i = i + 1;
        }
        assert(discrepancies@.take(i as int) =~= discrepancies@);
        actions
    }

    /// Sends an alert for each critical discrepancy and returns the messages.
    pub fn emit_alerts(&self, discrepancies: &[Discrepancy]) -> (r: Vec<String>)
        ensures
            string_views(r@) == alerts_spec(views(discrepancies@)),
    {
        let mut alerts: Vec<String> = Vec::new();
        let mut i: usize = 0;
        while i < discrepancies.len()
            invariant
                i <= discrepancies.len(),
                string_views(alerts@) == alerts_spec(views(discrepancies@.take(i as int))),
            decreases discrepancies.len() - i,
        {
            let d = &discrepancies[i];
            assert(views(discrepancies@.take(i + 1)).drop_last() =~= views(
                discrepancies@.take(i as int),
            ));
            assert(views(discrepancies@.take(i + 1)).last() == d@);
            if d.critical {
                let mut msg = concat3("[", d.kind.label(), "] critical discrepancy on record ");
                msg.append(d.record_id.as_str());
                msg.append(": ");
                msg.append(d.details.as_str());
                self.alert_handler.send_alert(msg.as_str());
                alerts.push(msg);
            }
            assert(string_views(alerts@) =~= alerts_spec(views(discrepancies@.take(i + 1))));
            i = i + 1;
        }
        assert(discrepancies@.take(i as int) =~= discrepancies@);
        alerts
    }
}

// ── Laws ───────────────────────────────────────────────────────────────────

/// Only status mismatches are ever fixed, and every fixed action answers a
/// recoverable discrepancy: the number of fixed actions never exceeds the
/// number of discrepancies.
pub proof fn law_fixed_never_exceeds_discrepancies(ds: Seq<DiscrepancyView>)
    ensures
        recover_spec(ds).len() <= ds.len(),
        forall|i: int| #![trigger recover_spec(ds)[i]]
            0 <= i < recover_spec(ds).len() && recover_spec(ds)[i].2 is Fixed ==> recover_spec(ds)[i].1
                == DiscrepancyKind::StatusMismatch,
    decreases ds.len(),
{
    if ds.len() > 0 {
        law_fixed_never_exceeds_discrepancies(ds.drop_last());
        let rest = recover_spec(ds.drop_last());
        assert forall|i: int| #![trigger recover_spec(ds)[i]]
            0 <= i < recover_spec(ds).len() && recover_spec(ds)[i].2 is Fixed implies recover_spec(ds)[i].1
            == DiscrepancyKind::StatusMismatch by {
            if i < rest.len() {
                assert(recover_spec(ds)[i] == rest[i]);
            }
        }
    }
}

/// Number of discrepancies of `ds` that satisfy `p`.
pub open spec fn count_where(ds: Seq<DiscrepancyView>, p: spec_fn(DiscrepancyView) -> bool) -> nat
    decreases ds.len(),
{
    if ds.len() == 0 {
        0
    } else {
        count_where(ds.drop_last(), p) + if p(ds.last()) {
            1nat
        } else {
            0nat
        }
    }
}

/// The discrepancy is of kind `k`.
pub open spec fn of_kind(k: DiscrepancyKind) -> spec_fn(DiscrepancyView) -> bool {
    |d: DiscrepancyView| d.1 == k
}

/// The discrepancy is a recoverable status mismatch.
pub open spec fn status_fix(d: DiscrepancyView) -> bool {
    d.3 && d.1 == DiscrepancyKind::StatusMismatch
}

/// The record's transaction is not on the chain (or it names none).
pub open spec fn unmatched(r: DbRecord, chain: Seq<ChainTransaction>) -> bool {
    r.tx_id is None || chain_lookup(chain, r.tx_id->0@) is None
}

/// Number of records whose transaction is not on the chain.
pub open spec fn count_unmatched(records: Seq<DbRecord>, chain: Seq<ChainTransaction>) -> nat
    decreases records.len(),
{
    if records.len() == 0 {
        0
    } else {
        count_unmatched(records.drop_last(), chain) + if unmatched(records.last(), chain) {
            1nat
        } else {
            0nat
        }
    }
}

/// Number of chain transactions that no record refers to.
pub open spec fn count_orphans(chain: Seq<ChainTransaction>, records: Seq<DbRecord>) -> nat
    decreases chain.len(),
{
    if chain.len() == 0 {
        0
    } else {
        count_orphans(chain.drop_last(), records) + if has_record(records, chain.last().tx_id@) {
            0nat
        } else {
            1nat
        }
    }
}

/// Number of fixed actions among recovery views.
pub open spec fn fixed_in(vs: Seq<RecoveryView>) -> nat
    decreases vs.len(),
{
    if vs.len() == 0 {
        0
    } else {
        fixed_in(vs.drop_last()) + if vs.last().2 is Fixed {
            1nat
        } else {
            0nat
        }
    }
}

proof fn lemma_count_where_add(
    a: Seq<DiscrepancyView>,
    b: Seq<DiscrepancyView>,
    p: spec_fn(DiscrepancyView) -> bool,
)
    ensures
        count_where(a + b, p) == count_where(a, p) + count_where(b, p),
    decreases b.len(),
{
    if b.len() == 0 {
        assert(a + b =~= a);
    } else {
        assert((a + b).drop_last() =~= a + b.drop_last());
        lemma_count_where_add(a, b.drop_last(), p);
    }
}

proof fn lemma_count_where_one(d: DiscrepancyView, p: spec_fn(DiscrepancyView) -> bool)
    ensures
        count_where(seq![d], p) == if p(d) {
            1nat
        } else {
            0nat
        },
{
    assert(seq![d].drop_last() =~= Seq::<DiscrepancyView>::empty());
    assert(seq![d].last() == d);
    assert(count_where(Seq::<DiscrepancyView>::empty(), p) == 0);
}

proof fn lemma_fixed_in_add(a: Seq<RecoveryView>, b: Seq<RecoveryView>)
    ensures
        fixed_in(a + b) == fixed_in(a) + fixed_in(b),
    decreases b.len(),
{
    if b.len() == 0 {
        assert(a + b =~= a);
    } else {
        assert((a + b).drop_last() =~= a + b.drop_last());
        lemma_fixed_in_add(a, b.drop_last());
    }
}

proof fn lemma_record_counts(r: DbRecord, chain: Seq<ChainTransaction>)
    ensures
        count_where(record_findings(r, chain), of_kind(DiscrepancyKind::MissingInDatabase)) == 0,
        count_where(record_findings(r, chain), of_kind(DiscrepancyKind::MissingOnChain)) == if unmatched(
            r,
            chain,
        ) {
            1nat
        } else {
            0nat
        },
        count_where(record_findings(r, chain), |d: DiscrepancyView| status_fix(d)) == count_where(
            record_findings(r, chain),
            of_kind(DiscrepancyKind::StatusMismatch),
        ),
{
    let fs = record_findings(r, chain);
    let p1 = of_kind(DiscrepancyKind::MissingInDatabase);
    let p2 = of_kind(DiscrepancyKind::MissingOnChain);
    let p3 = |d: DiscrepancyView| status_fix(d);
    let p4 = of_kind(DiscrepancyKind::StatusMismatch);
    match r.tx_id {
        None => {
            lemma_count_where_one(fs[0], p1);
            lemma_count_where_one(fs[0], p2);
            lemma_count_where_one(fs[0], p3);
            lemma_count_where_one(fs[0], p4);
            assert(fs =~= seq![fs[0]]);
        },
        Some(tx_id) => match chain_lookup(chain, tx_id@) {
            None => {
                lemma_count_where_one(fs[0], p1);
                lemma_count_where_one(fs[0], p2);
                lemma_count_where_one(fs[0], p3);
                lemma_count_where_one(fs[0], p4);
                assert(fs =~= seq![fs[0]]);
            },
            Some(c) => {
                let a: Seq<DiscrepancyView> = if r.amount != c.amount {
                    seq![
                        (
                            r.record_id@,
                            DiscrepancyKind::AmountMismatch,
                            amount_details(r.amount, c.amount),
                            false,
                            true,
                        ),
                    ]
                } else {
                    Seq::empty()
                };
                let b: Seq<DiscrepancyView> = if r.status != expected_status(c.status) {
                    seq![
                        (
                            r.record_id@,
                            DiscrepancyKind::StatusMismatch,
                            status_details(r.status, c.status),
                            true,
                            false,
                        ),
                    ]
                } else {
                    Seq::empty()
                };
                assert(fs == a + b);
                lemma_count_where_add(a, b, p1);
                lemma_count_where_add(a, b, p2);
                lemma_count_where_add(a, b, p3);
                lemma_count_where_add(a, b, p4);
                if a.len() > 0 {
                    lemma_count_where_one(a[0], p1);
                    lemma_count_where_one(a[0], p2);
                    lemma_count_where_one(a[0], p3);
                    lemma_count_where_one(a[0], p4);
                    assert(a =~= seq![a[0]]);
                }
                if b.len() > 0 {
                    lemma_count_where_one(b[0], p1);
                    lemma_count_where_one(b[0], p2);
                    lemma_count_where_one(b[0], p3);
                    lemma_count_where_one(b[0], p4);
                    assert(b =~= seq![b[0]]);
                }
            },
        },
    }
}

proof fn lemma_db_counts(records: Seq<DbRecord>, chain: Seq<ChainTransaction>)
    ensures
        count_where(db_findings(records, chain), of_kind(DiscrepancyKind::MissingInDatabase)) == 0,
        count_where(db_findings(records, chain), of_kind(DiscrepancyKind::MissingOnChain))
            == count_unmatched(records, chain),
        count_where(db_findings(records, chain), |d: DiscrepancyView| status_fix(d)) == count_where(
            db_findings(records, chain),
            of_kind(DiscrepancyKind::StatusMismatch),
        ),
    decreases records.len(),
{
    if records.len() > 0 {
        let a = db_findings(records.drop_last(), chain);
        let b = record_findings(records.last(), chain);
        lemma_db_counts(records.drop_last(), chain);
        lemma_record_counts(records.last(), chain);
        lemma_count_where_add(a, b, of_kind(DiscrepancyKind::MissingInDatabase));
        lemma_count_where_add(a, b, of_kind(DiscrepancyKind::MissingOnChain));
        lemma_count_where_add(a, b, |d: DiscrepancyView| status_fix(d));
        lemma_count_where_add(a, b, of_kind(DiscrepancyKind::StatusMismatch));
    }
}

proof fn lemma_orphan_counts(chain: Seq<ChainTransaction>, records: Seq<DbRecord>)
    ensures
        count_where(orphan_findings(chain, records), of_kind(DiscrepancyKind::MissingInDatabase))
            == count_orphans(chain, records),
        count_where(orphan_findings(chain, records), of_kind(DiscrepancyKind::MissingOnChain)) == 0,
        count_where(orphan_findings(chain, records), |d: DiscrepancyView| status_fix(d)) == 0,
        count_where(orphan_findings(chain, records), of_kind(DiscrepancyKind::StatusMismatch)) == 0,
    decreases chain.len(),
{
    if chain.len() > 0 {
        let a = orphan_findings(chain.drop_last(), records);
        let b: Seq<DiscrepancyView> = if has_record(records, chain.last().tx_id@) {
            Seq::empty()
        } else {
            seq![
                (
                    chain.last().tx_id@,
                    DiscrepancyKind::MissingInDatabase,
                    "on-chain tx "@ + chain.last().tx_id@ + " has no matching DB record"@,
                    false,
                    true,
                ),
            ]
        };
        lemma_orphan_counts(chain.drop_last(), records);
        assert(orphan_findings(chain, records) == a + b);
        lemma_count_where_add(a, b, of_kind(DiscrepancyKind::MissingInDatabase));
        lemma_count_where_add(a, b, of_kind(DiscrepancyKind::MissingOnChain));
        lemma_count_where_add(a, b, |d: DiscrepancyView| status_fix(d));
        lemma_count_where_add(a, b, of_kind(DiscrepancyKind::StatusMismatch));
        if b.len() > 0 {
            lemma_count_where_one(b[0], of_kind(DiscrepancyKind::MissingInDatabase));
            lemma_count_where_one(b[0], of_kind(DiscrepancyKind::MissingOnChain));
            lemma_count_where_one(b[0], |d: DiscrepancyView| status_fix(d));
            lemma_count_where_one(b[0], of_kind(DiscrepancyKind::StatusMismatch));
            assert(b =~= seq![b[0]]);
        }
    }
}

proof fn lemma_fixed_of_recovery(ds: Seq<DiscrepancyView>)
    ensures
        fixed_in(recover_spec(ds)) == count_where(ds, |d: DiscrepancyView| status_fix(d)),
        fixed_in(recover_spec(ds)) <= ds.len(),
    decreases ds.len(),
{
    if ds.len() > 0 {
        let d = ds.last();
        lemma_fixed_of_recovery(ds.drop_last());
        let tail: Seq<RecoveryView> = if !d.3 {
            seq![(d.0, d.1, RecoveryOutcome::Skipped)]
        } else if d.1 == DiscrepancyKind::StatusMismatch {
            seq![(d.0, d.1, RecoveryOutcome::Fixed)]
        } else {
            Seq::empty()
        };
        assert(recover_spec(ds) == recover_spec(ds.drop_last()) + tail);
        lemma_fixed_in_add(recover_spec(ds.drop_last()), tail);
        if tail.len() > 0 {
            assert(tail.drop_last() =~= Seq::<RecoveryView>::empty());
            assert(fixed_in(Seq::<RecoveryView>::empty()) == 0);
            assert(fixed_in(tail) == if tail.last().2 is Fixed {
                1nat
            } else {
                0nat
            });
        } else {
            assert(fixed_in(tail) == 0);
        }
        let p = |e: DiscrepancyView| status_fix(e);
        assert(count_where(ds, p) == count_where(ds.drop_last(), p) + if p(d) {
            1nat
        } else {
            0nat
        });
    }
}

proof fn lemma_count_fixed_views(acts: Seq<RecoveryAction>)
    ensures
        count_fixed(acts) == fixed_in(action_views(acts)),
    decreases acts.len(),
{
    if acts.len() > 0 {
        lemma_count_fixed_views(acts.drop_last());
        assert(action_views(acts).drop_last() =~= action_views(acts.drop_last()));
    }
}

/// Number of records that satisfy `p`.
pub open spec fn count_records(records: Seq<DbRecord>, p: spec_fn(DbRecord) -> bool) -> nat
    decreases records.len(),
{
    if records.len() == 0 {
        0
    } else {
        count_records(records.drop_last(), p) + if p(records.last()) {
            1nat
        } else {
            0nat
        }
    }
}

/// The record's transaction is on the chain with another amount.
pub open spec fn amount_mismatched(r: DbRecord, chain: Seq<ChainTransaction>) -> bool {
    &&& r.tx_id is Some
    &&& chain_lookup(chain, r.tx_id->0@) matches Some(c) && r.amount != c.amount
}

/// The record's transaction is on the chain with a status that does not
/// correspond to the record's.
pub open spec fn status_mismatched(r: DbRecord, chain: Seq<ChainTransaction>) -> bool {
    &&& r.tx_id is Some
    &&& chain_lookup(chain, r.tx_id->0@) matches Some(c) && r.status != expected_status(c.status)
}

/// A finding is recoverable exactly when it is a status mismatch, and
/// critical exactly when it is not recoverable.
pub open spec fn flags_fit(d: DiscrepancyView) -> bool {
    &&& d.3 == (d.1 == DiscrepancyKind::StatusMismatch)
    &&& d.4 == !d.3
}

proof fn lemma_kinds_partition(ds: Seq<DiscrepancyView>)
    ensures
        count_where(ds, of_kind(DiscrepancyKind::MissingOnChain)) + count_where(
            ds,
            of_kind(DiscrepancyKind::AmountMismatch),
        ) + count_where(ds, of_kind(DiscrepancyKind::StatusMismatch)) + count_where(
            ds,
            of_kind(DiscrepancyKind::MissingInDatabase),
        ) == ds.len(),
    decreases ds.len(),
{
    if ds.len() > 0 {
        lemma_kinds_partition(ds.drop_last());
    }
}

proof fn lemma_record_kinds(r: DbRecord, chain: Seq<ChainTransaction>)
    ensures
        count_where(record_findings(r, chain), of_kind(DiscrepancyKind::AmountMismatch)) == if amount_mismatched(
            r,
            chain,
        ) {
            1nat
        } else {
            0nat
        },
        count_where(record_findings(r, chain), of_kind(DiscrepancyKind::StatusMismatch)) == if status_mismatched(
            r,
            chain,
        ) {
            1nat
        } else {
            0nat
        },
        forall|i: int|
            0 <= i < record_findings(r, chain).len() ==> flags_fit(
                #[trigger] record_findings(r, chain)[i],
            ),
{
    let fs = record_findings(r, chain);
    let p1 = of_kind(DiscrepancyKind::AmountMismatch);
    let p2 = of_kind(DiscrepancyKind::StatusMismatch);
    match r.tx_id {
        None => {
            lemma_count_where_one(fs[0], p1);
            lemma_count_where_one(fs[0], p2);
            assert(fs =~= seq![fs[0]]);
        },
        Some(tx_id) => match chain_lookup(chain, tx_id@) {
            None => {
                lemma_count_where_one(fs[0], p1);
                lemma_count_where_one(fs[0], p2);
                assert(fs =~= seq![fs[0]]);
            },
            Some(c) => {
                let a: Seq<DiscrepancyView> = if r.amount != c.amount {
                    seq![
                        (
                            r.record_id@,
                            DiscrepancyKind::AmountMismatch,
                            amount_details(r.amount, c.amount),
                            false,
                            true,
                        ),
                    ]
                } else {
                    Seq::empty()
                };
                let b: Seq<DiscrepancyView> = if r.status != expected_status(c.status) {
                    seq![
                        (
                            r.record_id@,
                            DiscrepancyKind::StatusMismatch,
                            status_details(r.status, c.status),
                            true,
                            false,
                        ),
                    ]
                } else {
                    Seq::empty()
                };
                assert(fs == a + b);
                lemma_count_where_add(a, b, p1);
                lemma_count_where_add(a, b, p2);
                if a.len() > 0 {
                    lemma_count_where_one(a[0], p1);
                    lemma_count_where_one(a[0], p2);
                    assert(a =~= seq![a[0]]);
                }
                if b.len() > 0 {
                    lemma_count_where_one(b[0], p1);
                    lemma_count_where_one(b[0], p2);
                    assert(b =~= seq![b[0]]);
                }
            },
        },
    }
}

proof fn lemma_db_kinds(records: Seq<DbRecord>, chain: Seq<ChainTransaction>)
    ensures
        count_where(db_findings(records, chain), of_kind(DiscrepancyKind::AmountMismatch))
            == count_records(records, |r: DbRecord| amount_mismatched(r, chain)),
        count_where(db_findings(records, chain), of_kind(DiscrepancyKind::StatusMismatch))
            == count_records(records, |r: DbRecord| status_mismatched(r, chain)),
        forall|i: int|
            0 <= i < db_findings(records, chain).len() ==> flags_fit(
                #[trigger] db_findings(records, chain)[i],
            ),
    decreases records.len(),
{
    if records.len() > 0 {
        let a = db_findings(records.drop_last(), chain);
        let b = record_findings(records.last(), chain);
        lemma_db_kinds(records.drop_last(), chain);
        lemma_record_kinds(records.last(), chain);
        lemma_count_where_add(a, b, of_kind(DiscrepancyKind::AmountMismatch));
        lemma_count_where_add(a, b, of_kind(DiscrepancyKind::StatusMismatch));
        assert forall|i: int| 0 <= i < (a + b).len() implies flags_fit(#[trigger] (a + b)[i]) by {
            if i < a.len() {
                assert((a + b)[i] == a[i]);
            } else {
                assert((a + b)[i] == b[i - a.len()]);
            }
        }
    }
}

proof fn lemma_orphan_flags(chain: Seq<ChainTransaction>, records: Seq<DbRecord>)
    ensures
        count_where(orphan_findings(chain, records), of_kind(DiscrepancyKind::AmountMismatch)) == 0,
        forall|i: int|
            0 <= i < orphan_findings(chain, records).len() ==> flags_fit(
                #[trigger] orphan_findings(chain, records)[i],
            ),
    decreases chain.len(),
{
    if chain.len() > 0 {
        let a = orphan_findings(chain.drop_last(), records);
        lemma_orphan_flags(chain.drop_last(), records);
        let fs = orphan_findings(chain, records);
        if !has_record(records, chain.last().tx_id@) {
            assert(fs == a.push(fs.last()));
            assert(fs.drop_last() =~= a);
        } else {
            assert(fs =~= a);
        }
        assert forall|i: int| 0 <= i < fs.len() implies flags_fit(#[trigger] fs[i]) by {
            if i < a.len() {
                assert(fs[i] == a[i]);
            }
        }
    }
}

/// Detection, record by record: each record whose transaction is not on
/// the chain gives one `MissingOnChain` finding; each other record gives one
/// `AmountMismatch` finding when the amounts differ and one `StatusMismatch`
/// finding when its status does not correspond to the chain's; each chain
/// transaction that no record refers to gives one `MissingInDatabase`
/// finding, and there are no others. Every finding is recoverable exactly
/// when it is a status mismatch, and critical exactly when it is not
/// recoverable.
pub proof fn law_detection_per_record(records: Seq<DbRecord>, chain: Seq<ChainTransaction>)
    ensures
        forall|i: int|
            0 <= i < detect_spec(records, chain).len() ==> flags_fit(
                #[trigger] detect_spec(records, chain)[i],
            ),
        count_where(detect_spec(records, chain), of_kind(DiscrepancyKind::MissingOnChain))
            == count_unmatched(records, chain),
        count_where(detect_spec(records, chain), of_kind(DiscrepancyKind::AmountMismatch))
            == count_records(records, |r: DbRecord| amount_mismatched(r, chain)),
        count_where(detect_spec(records, chain), of_kind(DiscrepancyKind::StatusMismatch))
            == count_records(records, |r: DbRecord| status_mismatched(r, chain)),
        count_where(detect_spec(records, chain), of_kind(DiscrepancyKind::MissingInDatabase))
            == count_orphans(chain, records),
        detect_spec(records, chain).len() == count_unmatched(records, chain) + count_records(
            records,
            |r: DbRecord| amount_mismatched(r, chain),
        ) + count_records(records, |r: DbRecord| status_mismatched(r, chain)) + count_orphans(
            chain,
            records,
        ),
{
    let a = db_findings(records, chain);
    let b = orphan_findings(chain, records);
    let ds = detect_spec(records, chain);
    lemma_db_counts(records, chain);
    lemma_orphan_counts(chain, records);
    lemma_db_kinds(records, chain);
    lemma_orphan_flags(chain, records);
    lemma_count_where_add(a, b, of_kind(DiscrepancyKind::MissingInDatabase));
    lemma_count_where_add(a, b, of_kind(DiscrepancyKind::MissingOnChain));
    lemma_count_where_add(a, b, of_kind(DiscrepancyKind::AmountMismatch));
    lemma_count_where_add(a, b, of_kind(DiscrepancyKind::StatusMismatch));
    lemma_kinds_partition(ds);
    assert forall|i: int| 0 <= i < ds.len() implies flags_fit(#[trigger] ds[i]) by {
        if i < a.len() {
            assert(ds[i] == a[i]);
        } else {
            assert(ds[i] == b[i - a.len()]);
        }
    }
}

/// The alerts of a run are, in order, the messages of its critical
/// discrepancies: the `i`-th alert reports the `i`-th critical discrepancy,
/// as `[kind] critical discrepancy on record id: details`.
pub proof fn law_alerts_follow_critical_discrepancies(ds: Seq<DiscrepancyView>)
    ensures
        alerts_spec(ds) == ds.filter(|d: DiscrepancyView| d.4).map_values(
            |d: DiscrepancyView| alert_message(d),
        ),
    decreases ds.len(),
{
    if ds.len() > 0 {
        law_alerts_follow_critical_discrepancies(ds.drop_last());
        reveal(Seq::filter);
        let f0 = ds.drop_last().filter(|d: DiscrepancyView| d.4);
        if ds.last().4 {
            assert(ds.filter(|d: DiscrepancyView| d.4) == f0.push(ds.last()));
            assert(f0.push(ds.last()).map_values(|d: DiscrepancyView| alert_message(d))
                =~= f0.map_values(|d: DiscrepancyView| alert_message(d)).push(alert_message(ds.last())));
            assert(alerts_spec(ds) =~= alerts_spec(ds.drop_last()).push(alert_message(ds.last())));
        } else {
            assert(ds.filter(|d: DiscrepancyView| d.4) == f0);
            assert(alerts_spec(ds) =~= alerts_spec(ds.drop_last()));
        }
    } else {
        assert(alerts_spec(ds) =~= Seq::<Seq<char>>::empty());
    }
}

/// A record is checked against the transaction it names: a confirmed
/// transaction agrees with a completed record, a pending one with a pending
/// record and a failed one with a failed record. A record whose status
/// agrees and whose amount is the transaction's yields no finding; one
/// whose status does not agree yields exactly one status mismatch, which is
/// recoverable and not critical; one whose status agrees yields none.
pub proof fn law_record_checked_against_its_transaction(
    r: DbRecord,
    chain: Seq<ChainTransaction>,
    c: ChainTransaction,
)
    requires
        r.tx_id is Some,
        chain_lookup(chain, r.tx_id->0@) == Some(c),
    ensures
        ({
            let agrees = (c.status == TxStatus::Confirmed && r.status == RecordStatus::Completed)
                || (c.status == TxStatus::Pending && r.status == RecordStatus::Pending) || (c.status
                == TxStatus::Failed && r.status == RecordStatus::Failed);
            &&& (agrees && r.amount == c.amount) ==> record_findings(r, chain).len() == 0
            &&& agrees ==> count_where(
                record_findings(r, chain),
                of_kind(DiscrepancyKind::StatusMismatch),
            ) == 0
            &&& !agrees ==> count_where(
                record_findings(r, chain),
                of_kind(DiscrepancyKind::StatusMismatch),
            ) == 1
            &&& forall|i: int|
                0 <= i < record_findings(r, chain).len() ==> flags_fit(
                    #[trigger] record_findings(r, chain)[i],
                )
        }),
{
    lemma_record_kinds(r, chain);
}

/// A database whose records each name a transaction of the chain with the
/// same amount and an agreeing status (completed for confirmed, pending for
/// pending, failed for failed), and in which every transaction of the chain
/// is named by some record, yields no discrepancy at all.
pub proof fn law_agreeing_database_is_clean(records: Seq<DbRecord>, chain: Seq<ChainTransaction>)
    requires
        forall|i: int| #![trigger records[i]]
            0 <= i < records.len() ==> records[i].tx_id is Some && match chain_lookup(
                chain,
                records[i].tx_id->0@,
            ) {
                Some(c) => c.amount == records[i].amount && ((c.status == TxStatus::Confirmed
                    && records[i].status == RecordStatus::Completed) || (c.status
                    == TxStatus::Pending && records[i].status == RecordStatus::Pending) || (
                c.status == TxStatus::Failed && records[i].status == RecordStatus::Failed)),
                None => false,
            },
        forall|j: int| 0 <= j < chain.len() ==> has_record(records, #[trigger] chain[j].tx_id@),
    ensures
        detect_spec(records, chain).len() == 0,
{
    law_consistent_state_has_no_discrepancy(records, chain);
}

/// What a run's report counts: one `MissingInDatabase` finding per chain
/// transaction that no record refers to, one `MissingOnChain` finding per
/// record whose transaction is not on the chain, and as many fixed actions
/// as status mismatches, which are never more than the discrepancies (so
/// the unresolved count is the discrepancies less the fixed ones).
pub proof fn law_report_counts(
    records: Seq<DbRecord>,
    chain: Seq<ChainTransaction>,
    acts: Seq<RecoveryAction>,
)
    requires
        action_views(acts) == recover_spec(detect_spec(records, chain)),
    ensures
        count_where(detect_spec(records, chain), of_kind(DiscrepancyKind::MissingInDatabase))
            == count_orphans(chain, records),
        count_where(detect_spec(records, chain), of_kind(DiscrepancyKind::MissingOnChain))
            == count_unmatched(records, chain),
        count_fixed(acts) == count_where(
            detect_spec(records, chain),
            of_kind(DiscrepancyKind::StatusMismatch),
        ),
        count_fixed(acts) <= detect_spec(records, chain).len(),
{
    let a = db_findings(records, chain);
    let b = orphan_findings(chain, records);
    lemma_db_counts(records, chain);
    lemma_orphan_counts(chain, records);
    lemma_count_where_add(a, b, of_kind(DiscrepancyKind::MissingInDatabase));
    lemma_count_where_add(a, b, of_kind(DiscrepancyKind::MissingOnChain));
    lemma_count_where_add(a, b, |d: DiscrepancyView| status_fix(d));
    lemma_count_where_add(a, b, of_kind(DiscrepancyKind::StatusMismatch));
    lemma_fixed_of_recovery(a + b);
    lemma_count_fixed_views(acts);
}

/// Every critical discrepancy, and only those, raises an alert: the alerts
/// are as many as the critical discrepancies.
pub open spec fn count_critical(ds: Seq<DiscrepancyView>) -> nat
    decreases ds.len(),
{
    if ds.len() == 0 {
        0
    } else {
        count_critical(ds.drop_last()) + if ds.last().4 {
            1nat
        } else {
            0nat
        }
    }
}

/// The alerts of a run are exactly as many as its critical discrepancies.
pub proof fn law_one_alert_per_critical(ds: Seq<DiscrepancyView>)
    ensures
        alerts_spec(ds).len() == count_critical(ds),
    decreases ds.len(),
{
    if ds.len() > 0 {
        law_one_alert_per_critical(ds.drop_last());
    }
}

/// A database whose records all match the chain, with every transaction
/// recorded, yields no discrepancy.
pub proof fn law_consistent_state_has_no_discrepancy(
    records: Seq<DbRecord>,
    chain: Seq<ChainTransaction>,
)
    requires
        forall|i: int| #![trigger records[i]]
            0 <= i < records.len() ==> records[i].tx_id is Some && match chain_lookup(
                chain,
                records[i].tx_id->0@,
            ) {
                Some(c) => c.amount == records[i].amount && records[i].status == expected_status(
                    c.status,
                ),
                None => false,
            },
        forall|j: int| 0 <= j < chain.len() ==> has_record(records, #[trigger] chain[j].tx_id@),
    ensures
        detect_spec(records, chain) == Seq::<DiscrepancyView>::empty(),
{
    lemma_db_findings_empty(records, chain);
    lemma_orphans_empty(chain, records);
    assert(detect_spec(records, chain) =~= Seq::<DiscrepancyView>::empty());
}

proof fn lemma_db_findings_empty(records: Seq<DbRecord>, chain: Seq<ChainTransaction>)
    requires
        forall|i: int| #![trigger records[i]]
            0 <= i < records.len() ==> records[i].tx_id is Some && match chain_lookup(
                chain,
                records[i].tx_id->0@,
            ) {
                Some(c) => c.amount == records[i].amount && records[i].status == expected_status(
                    c.status,
                ),
                None => false,
            },
    ensures
        db_findings(records, chain) == Seq::<DiscrepancyView>::empty(),
    decreases records.len(),
{
    if records.len() > 0 {
        let r = records.last();
        assert(r == records[records.len() - 1]);
        assert forall|i: int| #![trigger records.drop_last()[i]]
            0 <= i < records.drop_last().len() implies records.drop_last()[i].tx_id is Some
            && match chain_lookup(chain, records.drop_last()[i].tx_id->0@) {
            Some(c) => c.amount == records.drop_last()[i].amount && records.drop_last()[i].status
                == expected_status(c.status),
            None => false,
        } by {
            assert(records.drop_last()[i] == records[i]);
        }
        lemma_db_findings_empty(records.drop_last(), chain);
        assert(record_findings(r, chain) =~= Seq::<DiscrepancyView>::empty());
        assert(db_findings(records, chain) =~= Seq::<DiscrepancyView>::empty());
    }
}

proof fn lemma_orphans_empty(chain: Seq<ChainTransaction>, records: Seq<DbRecord>)
    requires
        forall|j: int| 0 <= j < chain.len() ==> has_record(records, #[trigger] chain[j].tx_id@),
    ensures
        orphan_findings(chain, records) == Seq::<DiscrepancyView>::empty(),
    decreases chain.len(),
{
    if chain.len() > 0 {
        assert forall|j: int| 0 <= j < chain.drop_last().len() implies has_record(
            records,
            #[trigger] chain.drop_last()[j].tx_id@,
        ) by {
            assert(chain.drop_last()[j] == chain[j]);
        }
        lemma_orphans_empty(chain.drop_last(), records);
        assert(has_record(records, chain[chain.len() - 1].tx_id@));
        assert(orphan_findings(chain, records) =~= Seq::<DiscrepancyView>::empty());
    }
}

} // verus!
