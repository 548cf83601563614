//! Append-only audit log of state-changing operations. Each entry records
//! the operation, the actor, the affected entity and the ledger time, and is
//! also published as an event for off-chain indexers.
use vstd::prelude::*;

use super::state::PaymentContract;
use super::types::ContractEvent;

verus! {

/// Kind of operation an audit entry records.
#[derive(Clone, Copy, Debug, Eq, PartialEq, Structural)]
pub enum AuditAction {
    AdminSet,
    ContractUpgraded,
    MerchantRegistered,
    MerchantDeactivated,
    PaymentProcessed,
    PaymentArchived,
    RefundInitiated,
    RefundApproved,
    RefundRejected,
    RefundExecuted,
    MultisigInitiated,
    MultisigSigned,
    MultisigExecuted,
    ConfigChanged,
    WhitelistUpdated,
}

/// One audit entry.
#[derive(Clone, Debug, Eq, PartialEq)]
pub struct AuditEntry {
    /// Position in the log, from 1.
    pub index: u64,
    /// Ledger time of the operation.
    pub timestamp: u64,
    pub action: AuditAction,
    /// Who performed it.
    pub actor: String,
    /// Id of the affected entity; empty where there is none.
    pub target_id: String,
}

/// Most entries one page of the log holds.
pub const MAX_PAGE: u32 = 50;

/// Entry `k` of the log (from 0) carries the index `k + 1`.
pub open spec fn sequential(log: Seq<AuditEntry>) -> bool {
    forall|k: int| 0 <= k < log.len() ==> (#[trigger] log[k]).index == k + 1
}

/// Where a page starts: `from_index`, or the newest entry when it is 0 or
/// past the end.
pub open spec fn page_start(count: nat, from_index: u64) -> nat {
    if from_index == 0 || from_index > count { count } else { from_index as nat }
}

/// Number of entries on a page.
pub open spec fn page_len(count: nat, from_index: u64, limit: u32) -> nat {
    let cap: nat = if limit < MAX_PAGE { limit as nat } else { MAX_PAGE as nat };
    let start = page_start(count, from_index);
    if start < cap { start } else { cap }
}

/// A page of the log: the entries at indices `start`, `start - 1`, ...,
/// newest first.
pub open spec fn page_of(log: Seq<AuditEntry>, from_index: u64, limit: u32) -> Seq<AuditEntry> {
    let start = page_start(log.len(), from_index);
    Seq::new(page_len(log.len(), from_index, limit), |j: int| log[start - 1 - j])
}

fn copy_entry(e: &AuditEntry) -> (r: AuditEntry)
    ensures
        r == *e,
{
    AuditEntry {
        index: e.index,
        timestamp: e.timestamp,
        action: e.action,
        actor: e.actor.clone(),
        target_id: e.target_id.clone(),
    }
}

/// Number of entries in the log.
pub fn get_audit_count(contract: &PaymentContract) -> (r: u64)
    ensures
        r == contract.audit_view().len(),
{
    proof {
        contract.lemma_audit();
    }
    contract.audit.len() as u64
}

/// The entry with 1-based index `index`.
pub fn get_entry(contract: &PaymentContract, index: u64) -> (r: Option<AuditEntry>)
    ensures
        1 <= index <= contract.audit_view().len() ==> r == Some(
            contract.audit_view()[index - 1],
        ),
        !(1 <= index <= contract.audit_view().len()) ==> r is None,
{
    proof {
        contract.lemma_audit();
    }
    if index >= 1 && index <= contract.audit.len() as u64 {
        let k = (index - 1) as usize;
        Some(copy_entry(&contract.audit[k]))
    } else {
        None
    }
}

/// Appends an entry for `action` by `actor` on `target_id` at ledger time
/// `now`, and publishes it.
pub fn log(
    contract: &mut PaymentContract,
    action: AuditAction,
    actor: String,
    target_id: String,
    now: u64,
)
    requires
        old(contract).audit_view().len() < u64::MAX,
    ensures
        final(contract).audit_view() == old(contract).audit_view().push(
            AuditEntry {
                index: (old(contract).audit_view().len() + 1) as u64,
                timestamp: now,
                action,
                actor,
                target_id,
            },
        ),
        final(contract).events_view() == old(contract).events_view().push(
            ContractEvent::Audit {
                index: (old(contract).audit_view().len() + 1) as u64,
                timestamp: now,
                action,
                actor,
                target_id,
            },
        ),
        final(contract).wf() == old(contract).wf(),
        sequential(old(contract).audit_view()) ==> sequential(final(contract).audit_view()),
        PaymentContract::same_config(old(contract), final(contract)),
        PaymentContract::same_ledger(old(contract), final(contract)),
        PaymentContract::same_refunds(old(contract), final(contract)),
        PaymentContract::same_transfers(old(contract), final(contract)),
        final(contract).merchants_view() == old(contract).merchants_view(),
        final(contract).multisigs_view() == old(contract).multisigs_view(),
{
    let next_index = get_audit_count(contract) + 1;
    let entry = AuditEntry {
        index: next_index,
        timestamp: now,
        action,
        actor: actor.clone(),
        target_id: target_id.clone(),
    };
    contract.append_audit(entry);
    contract.publish(
        ContractEvent::Audit {
            index: next_index,
            timestamp: now,
            action,
            actor,
            target_id,
        },
    );
}

/// A page of at most `limit` (and at most 50) entries, newest first,
/// starting at the 1-based index `from_index`, or at the newest entry when
/// `from_index` is 0 or past the end.
pub fn get_entries(contract: &PaymentContract, from_index: u64, limit: u32) -> (r: Vec<AuditEntry>)
    ensures
        r@ == page_of(contract.audit_view(), from_index, limit),
{
    proof {
        contract.lemma_audit();
    }
    let ghost log = contract.audit_view();
    let count = get_audit_count(contract);
    let mut results: Vec<AuditEntry> = Vec::new();
    if count == 0 {
        assert(results@ =~= page_of(log, from_index, limit));
        return results;
    }
    let capped_limit: u64 = if limit < MAX_PAGE { limit as u64 } else { MAX_PAGE as u64 };
    let start = if from_index == 0 || from_index > count { count } else { from_index };
    let n = contract.audit.len();
    let mut idx = start;
    let mut fetched: u64 = 0;
    while idx >= 1 && fetched < capped_limit
        invariant
            log == contract.audit_view(),
            log == contract.audit@,
            count == log.len(),
            n == log.len(),
            1 <= start <= count,
            start == page_start(log.len(), from_index),
            capped_limit == (if limit < MAX_PAGE { limit as nat } else { MAX_PAGE as nat }),
            fetched + idx == start,
            fetched <= capped_limit,
            results@.len() == fetched,
            forall|j: int| 0 <= j < fetched ==> #[trigger] results@[j] == log[start - 1 - j],
        decreases idx,
    {
        let k = (idx - 1) as usize;
        assert(k == start - 1 - fetched);
        results.push(copy_entry(&contract.audit[k]));
        fetched = fetched + 1;
        idx = idx - 1;
    }
    assert(results@ =~= page_of(log, from_index, limit));
    results
}

/// Entry indices stay 1, 2, 3, ... whatever is logged: each appended entry
/// carries the next index.
pub proof fn law_log_is_sequential(
    before: Seq<AuditEntry>,
    action: AuditAction,
    actor: String,
    target_id: String,
    now: u64,
)
    requires
        sequential(before),
        before.len() < u64::MAX,
    ensures
        sequential(
            before.push(
                AuditEntry {
                    index: (before.len() + 1) as u64,
                    timestamp: now,
                    action,
                    actor,
                    target_id,
                },
            ),
        ),
{
}

} // verus!
