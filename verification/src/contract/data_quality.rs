//! Data-quality checks over the contract's storage: referential integrity
//! of refunds, consistency of payment amounts and statuses, timestamps in
//! the future, and payments of unregistered merchants.
use vstd::prelude::*;
use vstd::string::StringExecFns;

use super::state::PaymentContract;
use super::types::{ContractEvent, PaymentStatus};

verus! {

/// Severity of a finding.
#[derive(Clone, Copy, Debug, Eq, PartialEq, Structural)]
pub enum Severity {
    /// Informational: no action required.
    Info,
    /// A potential inconsistency to review.
    Warning,
    /// A definite integrity violation to remediate.
    Critical,
}

/// One finding of a quality check.
#[derive(Clone, Debug, Eq, PartialEq)]
pub struct QualityFinding {
    /// The check that produced it.
    pub check: String,
    pub severity: Severity,
    /// Id of the affected entity.
    pub entity_id: String,
    /// What is wrong.
    pub detail: String,
}

/// A finding as plain values: check, severity, entity id, detail.
pub type FindingView = (Seq<char>, Severity, Seq<char>, Seq<char>);

impl View for QualityFinding {
    type V = FindingView;

    open spec fn view(&self) -> FindingView {
        (self.check@, self.severity, self.entity_id@, self.detail@)
    }
}

/// The result of running all checks.
#[derive(Clone, Debug, Eq, PartialEq)]
pub struct QualityReport {
    /// Ledger time of the run.
    pub generated_at: u64,
    /// Entities inspected, one per id per check.
    pub total_checked: u32,
    pub critical_count: u32,
    pub warning_count: u32,
    /// The first 100 findings.
    pub findings: Vec<QualityFinding>,
}

/// Most findings a report keeps.
pub const MAX_FINDINGS: usize = 100;

/// Findings of the referential-integrity check.
pub open spec fn refund_findings(c: PaymentContract, ids: Seq<String>) -> Seq<FindingView>
    decreases ids.len(),
{
    if ids.len() == 0 {
        Seq::empty()
    } else {
        let id = ids.last()@;
        refund_findings(c, ids.drop_last()) + if c.refunds_view().dom().contains(id)
            && !c.payments_view().dom().contains(c.refunds_view()[id].order_id@) {
            seq![
                (
                    "referential_integrity"@,
                    Severity::Critical,
                    id,
                    "Refund references non-existent payment"@,
                ),
            ]
        } else {
            Seq::empty()
        }
    }
}

/// The status agrees with the refunded amount.
pub open spec fn status_consistent(status: PaymentStatus, amount: i128, refunded: i128) -> bool {
    match status {
        PaymentStatus::Completed => refunded == 0,
        PaymentStatus::PartiallyRefunded => refunded > 0 && refunded < amount,
        PaymentStatus::FullyRefunded => refunded == amount,
    }
}

/// Findings of the consistency check for one payment id.
pub open spec fn consistency_of(c: PaymentContract, id: Seq<char>) -> Seq<FindingView> {
    if !c.payments_view().dom().contains(id) {
        Seq::empty()
    } else {
        let p = c.payments_view()[id];
        (if p.refunded_amount < 0 || p.refunded_amount > p.amount {
            seq![
                (
                    "amount_consistency"@,
                    Severity::Critical,
                    id,
                    "refunded_amount out of valid range [0, amount]"@,
                ),
            ]
        } else {
            Seq::empty()
        }) + (if !status_consistent(p.status, p.amount, p.refunded_amount) {
            seq![
                (
                    "status_consistency"@,
                    Severity::Warning,
                    id,
                    "Payment status inconsistent with refunded_amount"@,
                ),
            ]
        } else {
            Seq::empty()
        }) + (if p.amount <= 0 {
            seq![
                ("amount_consistency"@, Severity::Critical, id, "Payment amount is non-positive"@),
            ]
        } else {
            Seq::empty()
        })
    }
}

/// Findings of the consistency check.
pub open spec fn consistency_findings(c: PaymentContract, ids: Seq<String>) -> Seq<FindingView>
    decreases ids.len(),
{
    if ids.len() == 0 {
        Seq::empty()
    } else {
        consistency_findings(c, ids.drop_last()) + consistency_of(c, ids.last()@)
    }
}

/// Findings of the timestamp check.
pub open spec fn timestamp_findings(c: PaymentContract, ids: Seq<String>, now: u64) -> Seq<
    FindingView,
>
    decreases ids.len(),
{
    if ids.len() == 0 {
        Seq::empty()
    } else {
        let id = ids.last()@;
        timestamp_findings(c, ids.drop_last(), now) + if c.payments_view().dom().contains(id)
            && c.payments_view()[id].paid_at > now {
            seq![
                (
                    "timestamp_anomaly"@,
                    Severity::Warning,
                    id,
                    "Payment timestamp is in the future"@,
                ),
            ]
        } else {
            Seq::empty()
        }
    }
}

/// Findings of the merchant-integrity check.
pub open spec fn merchant_findings(c: PaymentContract, ids: Seq<String>) -> Seq<FindingView>
    decreases ids.len(),
{
    if ids.len() == 0 {
        Seq::empty()
    } else {
        let id = ids.last()@;
        merchant_findings(c, ids.drop_last()) + if c.payments_view().dom().contains(id)
            && !c.merchants_view().dom().contains(c.payments_view()[id].merchant_address@) {
            seq![
                (
                    "merchant_integrity"@,
                    Severity::Warning,
                    id,
                    "Payment references unregistered merchant"@,
                ),
            ]
        } else {
            Seq::empty()
        }
    }
}

/// All findings, in check order.
pub open spec fn all_findings(c: PaymentContract, now: u64) -> Seq<FindingView> {
    refund_findings(c, c.refund_ids_view()) + consistency_findings(c, c.global_ids_view())
        + timestamp_findings(c, c.global_ids_view(), now) + merchant_findings(
        c,
        c.global_ids_view(),
    )
}

/// Number of findings of severity `s`.
pub open spec fn count_severity(fs: Seq<FindingView>, s: Severity) -> nat
    decreases fs.len(),
{
    if fs.len() == 0 {
        0
    } else {
        count_severity(fs.drop_last(), s) + if fs.last().1 == s {
            1nat
        } else {
            0nat
        }
    }
}

/// The findings a report keeps: the first 100.
pub open spec fn capped(fs: Seq<FindingView>) -> Seq<FindingView> {
    if fs.len() <= MAX_FINDINGS { fs } else { fs.take(MAX_FINDINGS as int) }
}

proof fn lemma_count_le(fs: Seq<FindingView>, s: Severity)
    ensures
        count_severity(fs, s) <= fs.len(),
    decreases fs.len(),
{
    if fs.len() > 0 {
        lemma_count_le(fs.drop_last(), s);
    }
}

proof fn lemma_count_add(a: Seq<FindingView>, b: Seq<FindingView>, s: Severity)
    ensures
        count_severity(a + b, s) == count_severity(a, s) + count_severity(b, s),
    decreases b.len(),
{
    if b.len() == 0 {
        assert(a + b =~= a);
    } else {
        assert((a + b).drop_last() =~= a + b.drop_last());
        lemma_count_add(a, b.drop_last(), s);
    }
}

proof fn lemma_consistency_len(c: PaymentContract, ids: Seq<String>)
    ensures
        consistency_findings(c, ids).len() <= 3 * ids.len(),
    decreases ids.len(),
{
    if ids.len() > 0 {
        lemma_consistency_len(c, ids.drop_last());
    }
}

proof fn lemma_one_per_id_refund(c: PaymentContract, ids: Seq<String>)
    ensures
        refund_findings(c, ids).len() <= ids.len(),
    decreases ids.len(),
{
    if ids.len() > 0 {
        lemma_one_per_id_refund(c, ids.drop_last());
    }
}

proof fn lemma_one_per_id_ts(c: PaymentContract, ids: Seq<String>, now: u64)
    ensures
        timestamp_findings(c, ids, now).len() <= ids.len(),
    decreases ids.len(),
{
    if ids.len() > 0 {
        lemma_one_per_id_ts(c, ids.drop_last(), now);
    }
}

proof fn lemma_one_per_id_merchant(c: PaymentContract, ids: Seq<String>)
    ensures
        merchant_findings(c, ids).len() <= ids.len(),
    decreases ids.len(),
{
    if ids.len() > 0 {
        lemma_one_per_id_merchant(c, ids.drop_last());
    }
}

proof fn lemma_count_single(x: FindingView, s: Severity)
    ensures
        count_severity(seq![x], s) == (if x.1 == s { 1nat } else { 0nat }),
{
    assert(seq![x].drop_last() =~= Seq::<FindingView>::empty());
    assert(seq![x].last() == x);
    lemma_count_empty(s);
}

proof fn lemma_count_empty(s: Severity)
    ensures
        count_severity(Seq::<FindingView>::empty(), s) == 0,
{
}

/// Severity counts of the referential-integrity check.
proof fn lemma_refund_counts(c: PaymentContract, ids: Seq<String>)
    ensures
        count_severity(refund_findings(c, ids), Severity::Critical) <= ids.len(),
        count_severity(refund_findings(c, ids), Severity::Warning) == 0,
    decreases ids.len(),
{
    if ids.len() > 0 {
        let id = ids.last()@;
        let tail = if c.refunds_view().dom().contains(id)
            && !c.payments_view().dom().contains(c.refunds_view()[id].order_id@) {
            seq![
                (
                    "referential_integrity"@,
                    Severity::Critical,
                    id,
                    "Refund references non-existent payment"@,
                ),
            ]
        } else {
            Seq::empty()
        };
        lemma_refund_counts(c, ids.drop_last());
        lemma_count_add(refund_findings(c, ids.drop_last()), tail, Severity::Critical);
        lemma_count_add(refund_findings(c, ids.drop_last()), tail, Severity::Warning);
        if tail.len() > 0 {
            lemma_count_single(tail[0], Severity::Critical);
            lemma_count_single(tail[0], Severity::Warning);
            assert(tail =~= seq![tail[0]]);
        }
    }
}

/// Severity counts of the consistency check for one payment.
proof fn lemma_consistency_of_counts(c: PaymentContract, id: Seq<char>)
    ensures
        count_severity(consistency_of(c, id), Severity::Critical) <= 2,
        count_severity(consistency_of(c, id), Severity::Warning) <= 1,
{
    if c.payments_view().dom().contains(id) {
        let p = c.payments_view()[id];
        let a = if p.refunded_amount < 0 || p.refunded_amount > p.amount {
            seq![
                (
                    "amount_consistency"@,
                    Severity::Critical,
                    id,
                    "refunded_amount out of valid range [0, amount]"@,
                ),
            ]
        } else {
            Seq::empty()
        };
        let b = if !status_consistent(p.status, p.amount, p.refunded_amount) {
            seq![
                (
                    "status_consistency"@,
                    Severity::Warning,
                    id,
                    "Payment status inconsistent with refunded_amount"@,
                ),
            ]
        } else {
            Seq::empty()
        };
        let d = if p.amount <= 0 {
            seq![
                ("amount_consistency"@, Severity::Critical, id, "Payment amount is non-positive"@),
            ]
        } else {
            Seq::empty()
        };
        assert(consistency_of(c, id) == a + b + d);
        lemma_count_add(a + b, d, Severity::Critical);
        lemma_count_add(a, b, Severity::Critical);
        lemma_count_add(a + b, d, Severity::Warning);
        lemma_count_add(a, b, Severity::Warning);
        if a.len() > 0 {
            assert(a =~= seq![a[0]]);
            lemma_count_single(a[0], Severity::Critical);
            lemma_count_single(a[0], Severity::Warning);
        }
        if b.len() > 0 {
            assert(b =~= seq![b[0]]);
            lemma_count_single(b[0], Severity::Critical);
            lemma_count_single(b[0], Severity::Warning);
        }
        if d.len() > 0 {
            assert(d =~= seq![d[0]]);
            lemma_count_single(d[0], Severity::Critical);
            lemma_count_single(d[0], Severity::Warning);
        }
    }
}

/// Severity counts of the consistency check.
proof fn lemma_consistency_counts(c: PaymentContract, ids: Seq<String>)
    ensures
        count_severity(consistency_findings(c, ids), Severity::Critical) <= 2 * ids.len(),
        count_severity(consistency_findings(c, ids), Severity::Warning) <= ids.len(),
    decreases ids.len(),
{
    if ids.len() > 0 {
        lemma_consistency_counts(c, ids.drop_last());
        lemma_consistency_of_counts(c, ids.last()@);
        lemma_count_add(
            consistency_findings(c, ids.drop_last()),
            consistency_of(c, ids.last()@),
            Severity::Critical,
        );
        lemma_count_add(
            consistency_findings(c, ids.drop_last()),
            consistency_of(c, ids.last()@),
            Severity::Warning,
        );
    }
}

/// Severity counts of the timestamp check.
proof fn lemma_timestamp_counts(c: PaymentContract, ids: Seq<String>, now: u64)
    ensures
        count_severity(timestamp_findings(c, ids, now), Severity::Critical) == 0,
        count_severity(timestamp_findings(c, ids, now), Severity::Warning) <= ids.len(),
    decreases ids.len(),
{
    if ids.len() > 0 {
        let id = ids.last()@;
        let tail = if c.payments_view().dom().contains(id) && c.payments_view()[id].paid_at > now {
            seq![
                (
                    "timestamp_anomaly"@,
                    Severity::Warning,
                    id,
                    "Payment timestamp is in the future"@,
                ),
            ]
        } else {
            Seq::empty()
        };
        lemma_timestamp_counts(c, ids.drop_last(), now);
        lemma_count_add(timestamp_findings(c, ids.drop_last(), now), tail, Severity::Critical);
        lemma_count_add(timestamp_findings(c, ids.drop_last(), now), tail, Severity::Warning);
        if tail.len() > 0 {
            lemma_count_single(tail[0], Severity::Critical);
            lemma_count_single(tail[0], Severity::Warning);
            assert(tail =~= seq![tail[0]]);
        }
    }
}

/// Severity counts of the merchant-integrity check.
proof fn lemma_merchant_counts(c: PaymentContract, ids: Seq<String>)
    ensures
        count_severity(merchant_findings(c, ids), Severity::Critical) == 0,
        count_severity(merchant_findings(c, ids), Severity::Warning) <= ids.len(),
    decreases ids.len(),
{
    if ids.len() > 0 {
        let id = ids.last()@;
        let tail = if c.payments_view().dom().contains(id)
            && !c.merchants_view().dom().contains(c.payments_view()[id].merchant_address@) {
            seq![
                (
                    "merchant_integrity"@,
                    Severity::Warning,
                    id,
                    "Payment references unregistered merchant"@,
                ),
            ]
        } else {
            Seq::empty()
        };
        lemma_merchant_counts(c, ids.drop_last());
        lemma_count_add(merchant_findings(c, ids.drop_last()), tail, Severity::Critical);
        lemma_count_add(merchant_findings(c, ids.drop_last()), tail, Severity::Warning);
        if tail.len() > 0 {
            lemma_count_single(tail[0], Severity::Critical);
            lemma_count_single(tail[0], Severity::Warning);
            assert(tail =~= seq![tail[0]]);
        }
    }
}

/// Critical findings come from the refund and consistency checks, warnings
/// from the other three; each check gives a bounded number per entity.
proof fn lemma_report_counts(c: PaymentContract, now: u64)
    ensures
        count_severity(all_findings(c, now), Severity::Critical) <= c.refund_ids_view().len() + 2
            * c.global_ids_view().len(),
        count_severity(all_findings(c, now), Severity::Warning) <= 3 * c.global_ids_view().len(),
{
    let r = refund_findings(c, c.refund_ids_view());
    let k = consistency_findings(c, c.global_ids_view());
    let t = timestamp_findings(c, c.global_ids_view(), now);
    let m = merchant_findings(c, c.global_ids_view());
    lemma_refund_counts(c, c.refund_ids_view());
    lemma_consistency_counts(c, c.global_ids_view());
    lemma_timestamp_counts(c, c.global_ids_view(), now);
    lemma_merchant_counts(c, c.global_ids_view());
    lemma_count_add(r, k, Severity::Critical);
    lemma_count_add(r + k, t, Severity::Critical);
    lemma_count_add(r + k + t, m, Severity::Critical);
    lemma_count_add(r, k, Severity::Warning);
    lemma_count_add(r + k, t, Severity::Warning);
    lemma_count_add(r + k + t, m, Severity::Warning);
}

fn finding(check: &str, severity: Severity, entity_id: &String, detail: &str) -> (r: QualityFinding)
    ensures
        r@ == (check@, severity, entity_id@, detail@),
{
    QualityFinding {
        check: String::from_str(check),
        severity,
        entity_id: entity_id.clone(),
        detail: String::from_str(detail),
    }
}

/// Findings gathered so far, the first 100 kept, with severity counts.
struct Collector {
    kept: Vec<QualityFinding>,
    critical: u64,
    warning: u64,
    ghost_all: Ghost<Seq<FindingView>>,
}

impl Collector {
    spec fn inv(&self) -> bool {
        &&& self.kept@.map_values(|f: QualityFinding| f@) == capped(self.ghost_all@)
        &&& self.critical == count_severity(self.ghost_all@, Severity::Critical)
        &&& self.warning == count_severity(self.ghost_all@, Severity::Warning)
    }

    fn add(&mut self, f: QualityFinding)
        requires
            old(self).inv(),
            old(self).ghost_all@.len() < u64::MAX,
        ensures
            final(self).inv(),
            final(self).ghost_all@ == old(self).ghost_all@.push(f@),
    {
        proof {
            lemma_count_le(self.ghost_all@, Severity::Critical);
            lemma_count_le(self.ghost_all@, Severity::Warning);
        }
        let ghost before = self.ghost_all@;
        let ghost kept_before = self.kept@;
        match f.severity {
            Severity::Critical => self.critical = self.critical + 1,
            Severity::Warning => self.warning = self.warning + 1,
            Severity::Info => {},
        }
        if self.kept.len() < MAX_FINDINGS {
            self.kept.push(f);
            proof {
                assert(capped(before) =~= before);
            }
        }
        self.ghost_all = Ghost(before.push(f@));
        proof {
            assert(before.push(f@).drop_last() =~= before);
            if kept_before.len() < MAX_FINDINGS {
                assert(self.kept@.map_values(|x: QualityFinding| x@) =~= capped(before.push(f@)));
            } else {
                assert(capped(before.push(f@)) =~= capped(before));
            }
        }
    }
}

/// Runs all checks at ledger time `now` and publishes a summary event.
pub fn run_checks(contract: &mut PaymentContract, now: u64) -> (r: QualityReport)
    requires
        old(contract).wf(),
        old(contract).refund_ids_view().len() + 3 * old(contract).global_ids_view().len() <= u32::MAX,
    ensures
        final(contract).wf(),
        r.generated_at == now,
        r.total_checked == old(contract).refund_ids_view().len() + 3 * old(
            contract,
        ).global_ids_view().len(),
        r.findings@.map_values(|f: QualityFinding| f@) == capped(all_findings(*old(contract), now)),
        r.critical_count == count_severity(all_findings(*old(contract), now), Severity::Critical),
        r.warning_count == count_severity(all_findings(*old(contract), now), Severity::Warning),
        final(contract).events_view() == old(contract).events_view().push(
            ContractEvent::DataQualityChecked {
                generated_at: now,
                total_checked: r.total_checked,
                critical_count: r.critical_count,
                warning_count: r.warning_count,
            },
        ),
        PaymentContract::same_config(old(contract), final(contract)),
        PaymentContract::same_ledger(old(contract), final(contract)),
        PaymentContract::same_refunds(old(contract), final(contract)),
        PaymentContract::same_transfers(old(contract), final(contract)),
        final(contract).merchants_view() == old(contract).merchants_view(),
        final(contract).multisigs_view() == old(contract).multisigs_view(),
        final(contract).audit_view() == old(contract).audit_view(),
{
    let mut col = Collector {
        kept: Vec::new(),
        critical: 0,
        warning: 0,
        ghost_all: Ghost(Seq::empty()),
    };
    proof {
        assert(col.kept@.map_values(|f: QualityFinding| f@) =~= capped(Seq::empty()));
        lemma_one_per_id_refund(*contract, contract.refund_ids@);
        lemma_consistency_len(*contract, contract.global_ids@);
        lemma_one_per_id_ts(*contract, contract.global_ids@, now);
        lemma_one_per_id_merchant(*contract, contract.global_ids@);
    }
    let ghost c = *contract;
    proof {
        contract.lemma_tables();
    }
    // Check 1: every refund refers to a stored payment.
    let mut i: usize = 0;
    while i < contract.refund_ids.len()
        invariant
            c == *contract,
            contract.wf(),
            col.inv(),
            i <= contract.refund_ids@.len(),
            col.ghost_all@ == refund_findings(c, contract.refund_ids@.take(i as int)),
            contract.refund_ids@.len() + 3 * contract.global_ids@.len() <= u32::MAX,
            refund_findings(c, contract.refund_ids@).len() <= contract.refund_ids@.len(),
        decreases contract.refund_ids@.len() - i,
    {
        proof {
            contract.lemma_tables();
        }
        assert(contract.refund_ids@.take(i + 1).drop_last() =~= contract.refund_ids@.take(i as int));
        assert(contract.refund_ids@.take(i + 1).last() == contract.refund_ids@[i as int]);
        proof {
            lemma_one_per_id_refund(c, contract.refund_ids@.take(i + 1));
        }
        let ghost before = col.ghost_all@;
        let ghost id = contract.refund_ids@[i as int]@;
        let missing = match contract.refunds.get(contract.refund_ids[i].as_str()) {
            Some(f) => !contract.payments.contains(f.order_id.as_str()),
            None => false,
        };
        if missing {
            col.add(
                finding(
                    "referential_integrity",
                    Severity::Critical,
                    &contract.refund_ids[i],
                    "Refund references non-existent payment",
                ),
            );
        }
        proof {
            if missing {
                assert(col.ghost_all@ =~= before + seq![
                    (
                        "referential_integrity"@,
                        Severity::Critical,
                        id,
                        "Refund references non-existent payment"@,
                    ),
                ]);
            } else {
                assert(col.ghost_all@ =~= before + Seq::<FindingView>::empty());
            }
        }
        i = i + 1;
    }
    assert(contract.refund_ids@.take(i as int) =~= contract.refund_ids@);
    let ghost after1 = col.ghost_all@;
    // Check 2: amounts and statuses are consistent.
    let mut j: usize = 0;
    while j < contract.global_ids.len()
        invariant
            c == *contract,
            contract.wf(),
            col.inv(),
            j <= contract.global_ids@.len(),
            after1 == refund_findings(c, contract.refund_ids@),
            col.ghost_all@ == after1 + consistency_findings(c, contract.global_ids@.take(j as int)),
            after1.len() <= contract.refund_ids@.len(),
            contract.refund_ids@.len() + 3 * contract.global_ids@.len() <= u32::MAX,
        decreases contract.global_ids@.len() - j,
    {
        proof {
            contract.lemma_tables();
        }
        assert(contract.global_ids@.take(j + 1).drop_last() =~= contract.global_ids@.take(j as int));
        assert(contract.global_ids@.take(j + 1).last() == contract.global_ids@[j as int]);
        proof {
            lemma_consistency_len(c, contract.global_ids@.take(j as int));
        }
        let ghost base = col.ghost_all@;
        let id = &contract.global_ids[j];
        match contract.payments.get(id.as_str()) {
            Some(p) => {
                if p.refunded_amount < 0 || p.refunded_amount > p.amount {
                    col.add(
                        finding(
                            "amount_consistency",
                            Severity::Critical,
                            id,
                            "refunded_amount out of valid range [0, amount]",
                        ),
                    );
                }
                let status_ok = match p.status {
                    PaymentStatus::Completed => p.refunded_amount == 0,
                    PaymentStatus::PartiallyRefunded => p.refunded_amount > 0
                        && p.refunded_amount < p.amount,
                    PaymentStatus::FullyRefunded => p.refunded_amount == p.amount,
                };
                if !status_ok {
                    col.add(
                        finding(
                            "status_consistency",
                            Severity::Warning,
                            id,
                            "Payment status inconsistent with refunded_amount",
                        ),
                    );
                }
                if p.amount <= 0 {
                    col.add(
                        finding(
                            "amount_consistency",
                            Severity::Critical,
                            id,
                            "Payment amount is non-positive",
                        ),
                    );
                }
            },
            None => {},
        }
        assert(col.ghost_all@ =~= base + consistency_of(c, id@));
        assert(col.ghost_all@ =~= after1 + consistency_findings(c, contract.global_ids@.take(j + 1)));
        j = j + 1;
    }
    assert(contract.global_ids@.take(j as int) =~= contract.global_ids@);
    let ghost after2 = col.ghost_all@;
    // Check 3: no payment is dated in the future.
    let mut k: usize = 0;
    while k < contract.global_ids.len()
        invariant
            c == *contract,
            contract.wf(),
            col.inv(),
            k <= contract.global_ids@.len(),
            after2 == refund_findings(c, contract.refund_ids@) + consistency_findings(c, contract.global_ids@),
            col.ghost_all@ == after2 + timestamp_findings(c, contract.global_ids@.take(k as int), now),
            after2.len() <= contract.refund_ids@.len() + 3 * contract.global_ids@.len(),
            timestamp_findings(c, contract.global_ids@, now).len() <= contract.global_ids@.len(),
            contract.refund_ids@.len() + 3 * contract.global_ids@.len() <= u32::MAX,
        decreases contract.global_ids@.len() - k,
    {
        proof {
            contract.lemma_tables();
        }
        assert(contract.global_ids@.take(k + 1).drop_last() =~= contract.global_ids@.take(k as int));
        assert(contract.global_ids@.take(k + 1).last() == contract.global_ids@[k as int]);
        proof {
            lemma_one_per_id_ts(c, contract.global_ids@.take(k as int), now);
        }
        let ghost before = col.ghost_all@;
        let id = &contract.global_ids[k];
        let future = match contract.payments.get(id.as_str()) {
            Some(p) => p.paid_at > now,
            None => false,
        };
        if future {
            col.add(
                finding(
                    "timestamp_anomaly",
                    Severity::Warning,
                    id,
                    "Payment timestamp is in the future",
                ),
            );
        }
        proof {
            if future {
                assert(col.ghost_all@ =~= before + seq![
                    (
                        "timestamp_anomaly"@,
                        Severity::Warning,
                        id@,
                        "Payment timestamp is in the future"@,
                    ),
                ]);
            } else {
                assert(col.ghost_all@ =~= before + Seq::<FindingView>::empty());
            }
        }
        assert(col.ghost_all@ =~= after2 + timestamp_findings(c, contract.global_ids@.take(k + 1), now));
        k = k + 1;
    }
    assert(contract.global_ids@.take(k as int) =~= contract.global_ids@);
    let ghost after3 = col.ghost_all@;
    // Check 4: every payment's merchant is registered.
    let mut m: usize = 0;
    while m < contract.global_ids.len()
        invariant
            c == *contract,
            contract.wf(),
            col.inv(),
            m <= contract.global_ids@.len(),
            after3 == refund_findings(c, contract.refund_ids@) + consistency_findings(c, contract.global_ids@)
                + timestamp_findings(c, contract.global_ids@, now),
            col.ghost_all@ == after3 + merchant_findings(c, contract.global_ids@.take(m as int)),
            after3.len() <= contract.refund_ids@.len() + 3 * contract.global_ids@.len() + contract.global_ids@.len(),
            contract.refund_ids@.len() + 3 * contract.global_ids@.len() <= u32::MAX,
        decreases contract.global_ids@.len() - m,
    {
        proof {
            contract.lemma_tables();
        }
        assert(contract.global_ids@.take(m + 1).drop_last() =~= contract.global_ids@.take(m as int));
        assert(contract.global_ids@.take(m + 1).last() == contract.global_ids@[m as int]);
        proof {
            lemma_one_per_id_merchant(c, contract.global_ids@.take(m as int));
        }
        let ghost before = col.ghost_all@;
        let id = &contract.global_ids[m];
        let unregistered = match contract.payments.get(id.as_str()) {
            Some(p) => !contract.merchants.contains(p.merchant_address.as_str()),
            None => false,
        };
        if unregistered {
            col.add(
                finding(
                    "merchant_integrity",
                    Severity::Warning,
                    id,
                    "Payment references unregistered merchant",
                ),
            );
        }
        proof {
            if unregistered {
                assert(col.ghost_all@ =~= before + seq![
                    (
                        "merchant_integrity"@,
                        Severity::Warning,
                        id@,
                        "Payment references unregistered merchant"@,
                    ),
                ]);
            } else {
                assert(col.ghost_all@ =~= before + Seq::<FindingView>::empty());
            }
        }
        assert(col.ghost_all@ =~= after3 + merchant_findings(c, contract.global_ids@.take(m + 1)));
        m = m + 1;
    }
    assert(contract.global_ids@.take(m as int) =~= contract.global_ids@);
    assert(col.ghost_all@ =~= all_findings(c, now));
    proof {
        lemma_report_counts(c, now);
    }
    let critical_count = col.critical as u32;
    let warning_count = col.warning as u32;
    let total_checked = (contract.refund_ids.len() + 3 * contract.global_ids.len()) as u32;
    let report = QualityReport {
        generated_at: now,
        total_checked,
        critical_count,
        warning_count,
        findings: col.kept,
    };
    contract.publish(
        ContractEvent::DataQualityChecked {
            generated_at: now,
            total_checked,
            critical_count: report.critical_count,
            warning_count: report.warning_count,
        },
    );
    report
}

} // verus!
