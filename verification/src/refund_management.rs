//! Refund lifecycle off chain: initiate, then approve or reject or cancel,
//! then execute within a grace period. Every successful step appends one
//! event to the audit log; a refused step changes nothing.
use vstd::prelude::*;
use vstd::string::StringExecFns;

use crate::table::{Keyed, Table};
use crate::text::concat4;

verus! {

/// Refund window: 30 days, in seconds.
pub const REFUND_WINDOW_SECS: u64 = 2_592_000;
/// Time after approval within which a refund must be executed: 48 hours.
pub const EXECUTION_GRACE_PERIOD_SECS: u64 = 172_800;

/// State of a refund.
#[derive(Clone, Copy, Debug, Eq, PartialEq, Structural)]
pub enum RefundStatus {
    Pending,
    Approved,
    Rejected,
    Cancelled,
    Executed,
}

/// The name of a status.
pub open spec fn status_label(s: RefundStatus) -> Seq<char> {
    match s {
        RefundStatus::Pending => "Pending"@,
        RefundStatus::Approved => "Approved"@,
        RefundStatus::Rejected => "Rejected"@,
        RefundStatus::Cancelled => "Cancelled"@,
        RefundStatus::Executed => "Executed"@,
    }
}

impl RefundStatus {
    /// The name of the status.
    pub fn label(&self) -> (r: &'static str)
        ensures
            r@ == status_label(*self),
    {
        match self {
            RefundStatus::Pending => "Pending",
            RefundStatus::Approved => "Approved",
            RefundStatus::Rejected => "Rejected",
            RefundStatus::Cancelled => "Cancelled",
            RefundStatus::Executed => "Executed",
        }
    }

    /// The name of the status, as a `String`.
    pub fn to_string(&self) -> (r: String)
        ensures
            r@ == status_label(*self),
    {
        String::from_str(self.label())
    }
}

/// A refund request.
#[derive(Clone, Debug)]
pub struct RefundRecord {
    pub refund_id: String,
    pub order_id: String,
    /// Amount in the token's base unit.
    pub amount: u128,
    pub reason: String,
    pub status: RefundStatus,
    pub initiated_by: String,
    pub initiated_at: u64,
    pub approved_at: Option<u64>,
    pub executed_at: Option<u64>,
    pub cancelled_at: Option<u64>,
    /// When the refunded payment was made (for the window check).
    pub payment_paid_at: u64,
}

impl Keyed for RefundRecord {
    type K = str;

    open spec fn key_view(&self) -> Seq<char> {
        self.refund_id@
    }

    fn key_str(&self) -> (r: &str) {
        self.refund_id.as_str()
    }

    fn same_key(a: &str, b: &str) -> (r: bool) {
        crate::table::str_eq(a, b)
    }
}

/// Kind of a lifecycle event.
#[derive(Clone, Copy, Debug, Eq, PartialEq, Structural)]
pub enum RefundEventType {
    Initiated,
    Approved,
    Rejected,
    Executed,
    Cancelled,
}

/// The topic of an event kind.
pub open spec fn event_type_label(t: RefundEventType) -> Seq<char> {
    match t {
        RefundEventType::Initiated => "refund_initiated"@,
        RefundEventType::Approved => "refund_approved"@,
        RefundEventType::Rejected => "refund_rejected"@,
        RefundEventType::Executed => "refund_executed"@,
        RefundEventType::Cancelled => "refund_cancelled"@,
    }
}

impl RefundEventType {
    /// The topic of the event kind.
    pub fn to_string(&self) -> (r: String)
        ensures
            r@ == event_type_label(*self),
    {
        let s = match self {
            RefundEventType::Initiated => "refund_initiated",
            RefundEventType::Approved => "refund_approved",
            RefundEventType::Rejected => "refund_rejected",
            RefundEventType::Executed => "refund_executed",
            RefundEventType::Cancelled => "refund_cancelled",
        };
        String::from_str(s)
    }
}

/// An entry of the audit log.
#[derive(Clone, Debug)]
pub struct RefundEvent {
    pub refund_id: String,
    pub order_id: String,
    pub event_type: RefundEventType,
    pub actor: String,
    pub timestamp: u64,
    pub metadata: Option<String>,
}

/// Why a refund operation was refused.
#[derive(Debug, PartialEq, Eq)]
pub enum RefundError {
    RefundNotFound,
    RefundAlreadyExists,
    InvalidAmount,
    InvalidTransition { from: String, to: String },
    RefundWindowExpired,
    ExecutionWindowExpired,
    Unauthorized,
    AmountExceedsPayment,
}

/// The message of an error.
pub open spec fn error_message(e: RefundError) -> Seq<char> {
    match e {
        RefundError::RefundNotFound => "Refund not found"@,
        RefundError::RefundAlreadyExists => "Refund already exists"@,
        RefundError::InvalidAmount => "Amount must be > 0"@,
        RefundError::InvalidTransition { from, to } => "Invalid state transition: "@ + from@
            + " → "@ + to@,
        RefundError::RefundWindowExpired => "30-day refund window has expired"@,
        RefundError::ExecutionWindowExpired => "48-hour execution grace period has expired"@,
        RefundError::Unauthorized => "Caller is not authorized for this operation"@,
        RefundError::AmountExceedsPayment => "Refund amount exceeds original payment amount"@,
    }
}

impl RefundError {
    /// The error's message.
    pub fn to_string(&self) -> (r: String)
        ensures
            r@ == error_message(*self),
    {
        match self {
            RefundError::RefundNotFound => String::from_str("Refund not found"),
            RefundError::RefundAlreadyExists => String::from_str("Refund already exists"),
            RefundError::InvalidAmount => String::from_str("Amount must be > 0"),
            RefundError::InvalidTransition { from, to } => concat4(
                "Invalid state transition: ",
                from.as_str(),
                " → ",
                to.as_str(),
            ),
            RefundError::RefundWindowExpired => String::from_str("30-day refund window has expired"),
            RefundError::ExecutionWindowExpired => String::from_str(
                "48-hour execution grace period has expired",
            ),
            RefundError::Unauthorized => String::from_str(
                "Caller is not authorized for this operation",
            ),
            RefundError::AmountExceedsPayment => String::from_str(
                "Refund amount exceeds original payment amount",
            ),
        }
    }
}

/// The lifecycle's edges: a pending refund may be approved, rejected or
/// cancelled; an approved one may be executed; nothing leaves the others.
pub open spec fn transition_allowed(from: RefundStatus, to: RefundStatus) -> bool {
    match from {
        RefundStatus::Pending => to == RefundStatus::Approved || to == RefundStatus::Rejected
            || to == RefundStatus::Cancelled,
        RefundStatus::Approved => to == RefundStatus::Executed,
        _ => false,
    }
}

/// Rejected, cancelled and executed refunds are final.
pub open spec fn is_final(s: RefundStatus) -> bool {
    s == RefundStatus::Rejected || s == RefundStatus::Cancelled || s == RefundStatus::Executed
}

/// The event kind that records a move to `to`.
pub open spec fn event_for(to: RefundStatus) -> RefundEventType {
    match to {
        RefundStatus::Approved => RefundEventType::Approved,
        RefundStatus::Rejected => RefundEventType::Rejected,
        RefundStatus::Executed => RefundEventType::Executed,
        RefundStatus::Cancelled => RefundEventType::Cancelled,
        RefundStatus::Pending => RefundEventType::Initiated,
    }
}

/// `rec` after moving to `to` at time `now`: approval, execution and
/// cancellation are stamped, rejection is not.
pub open spec fn moved(rec: RefundRecord, to: RefundStatus, now: u64) -> RefundRecord {
    match to {
        RefundStatus::Approved => RefundRecord { status: to, approved_at: Some(now), ..rec },
        RefundStatus::Executed => RefundRecord { status: to, executed_at: Some(now), ..rec },
        RefundStatus::Cancelled => RefundRecord { status: to, cancelled_at: Some(now), ..rec },
        _ => RefundRecord { status: to, ..rec },
    }
}

/// `e` records the event `kind` on refund `id` of order `order_id`.
pub open spec fn event_is(
    e: RefundEvent,
    id: Seq<char>,
    order_id: String,
    kind: RefundEventType,
    actor: String,
    now: u64,
    metadata: Option<String>,
) -> bool {
    &&& e.refund_id@ == id
    &&& e.order_id == order_id
    &&& e.event_type == kind
    &&& e.actor == actor
    &&& e.timestamp == now
    &&& e.metadata == metadata
}

/// The refund service: refunds by id and the audit log.
pub struct RefundService {
    refunds: Table<RefundRecord>,
    /// Every state change, in order.
    pub audit_log: Vec<RefundEvent>,
}

/// An approval at `approved_at` is older than the grace period at `now`.
pub open spec fn grace_expired(approved_at: Option<u64>, now: u64) -> bool {
    match approved_at {
        Some(a) => now > a + EXECUTION_GRACE_PERIOD_SECS,
        None => false,
    }
}

/// The outcome of moving refund `id` to `to` at time `now`, from `before`
/// to `after`.
pub open spec fn advance_post(
    before: RefundService,
    after: RefundService,
    r: Result<(), RefundError>,
    id: Seq<char>,
    caller: String,
    to: RefundStatus,
    metadata: Option<String>,
    now: u64,
) -> bool {
    &&& after.wf()
    &&& !before.records().dom().contains(id) ==> r == Err::<(), RefundError>(
        RefundError::RefundNotFound,
    ) && RefundService::unchanged(before, after)
    &&& before.records().dom().contains(id) ==> {
        let rec = before.records()[id];
        if !transition_allowed(rec.status, to) {
            &&& r matches Err(RefundError::InvalidTransition { from, to: target }) && from@
                == status_label(rec.status) && target@ == status_label(to)
            &&& RefundService::unchanged(before, after)
        } else if to == RefundStatus::Executed && grace_expired(rec.approved_at, now) {
            &&& r == Err::<(), RefundError>(RefundError::ExecutionWindowExpired)
            &&& RefundService::unchanged(before, after)
        } else {
            &&& r is Ok
            &&& after.records() == before.records().insert(id, moved(rec, to, now))
            &&& after.log().len() == before.log().len() + 1
            &&& after.log().drop_last() == before.log()
            &&& event_is(after.log().last(), id, rec.order_id, event_for(to), caller, now, metadata)
        }
    }
}

/// The outcome of initiating a refund at time `now`.
pub open spec fn initiate_post(
    before: RefundService,
    after: RefundService,
    r: Result<(), RefundError>,
    refund_id: String,
    order_id: String,
    amount: u128,
    reason: String,
    caller: String,
    payment_paid_at: u64,
    original_amount: u128,
    already_refunded: u128,
    now: u64,
) -> bool {
    let remaining: int = if original_amount >= already_refunded {
        original_amount - already_refunded
    } else {
        0
    };
    &&& after.wf()
    &&& if before.records().dom().contains(refund_id@) {
        r == Err::<(), RefundError>(RefundError::RefundAlreadyExists) && RefundService::unchanged(
            before,
            after,
        )
    } else if amount == 0 {
        r == Err::<(), RefundError>(RefundError::InvalidAmount) && RefundService::unchanged(
            before,
            after,
        )
    } else if amount > remaining {
        r == Err::<(), RefundError>(RefundError::AmountExceedsPayment) && RefundService::unchanged(
            before,
            after,
        )
    } else if now > payment_paid_at + REFUND_WINDOW_SECS {
        r == Err::<(), RefundError>(RefundError::RefundWindowExpired) && RefundService::unchanged(
            before,
            after,
        )
    } else {
        &&& r is Ok
        &&& after.records() == before.records().insert(
            refund_id@,
            RefundRecord {
                refund_id,
                order_id,
                amount,
                reason,
                status: RefundStatus::Pending,
                initiated_by: caller,
                initiated_at: now,
                approved_at: None,
                executed_at: None,
                cancelled_at: None,
                payment_paid_at,
            },
        )
        &&& after.log().len() == before.log().len() + 1
        &&& after.log().drop_last() == before.log()
        &&& event_is(
            after.log().last(),
            refund_id@,
            order_id,
            RefundEventType::Initiated,
            caller,
            now,
            None,
        )
    }
}

/// The refunds of order `order_id` among `s`, in order.
pub open spec fn of_order(s: Seq<RefundRecord>, order_id: Seq<char>) -> Seq<RefundRecord>
    decreases s.len(),
{
    if s.len() == 0 {
        Seq::empty()
    } else {
        of_order(s.drop_last(), order_id) + if s.last().order_id@ == order_id {
            seq![s.last()]
        } else {
            Seq::empty()
        }
    }
}

fn copy_record(r: &RefundRecord) -> (c: RefundRecord)
    ensures
        c == *r,
{
    RefundRecord {
        refund_id: r.refund_id.clone(),
        order_id: r.order_id.clone(),
        amount: r.amount,
        reason: r.reason.clone(),
        status: r.status,
        initiated_by: r.initiated_by.clone(),
        initiated_at: r.initiated_at,
        approved_at: r.approved_at,
        executed_at: r.executed_at,
        cancelled_at: r.cancelled_at,
        payment_paid_at: r.payment_paid_at,
    }
}

fn allowed(from: RefundStatus, to: RefundStatus) -> (r: bool)
    ensures
        r == transition_allowed(from, to),
{
    match from {
        RefundStatus::Pending => match to {
            RefundStatus::Approved | RefundStatus::Rejected | RefundStatus::Cancelled => true,
            _ => false,
        },
        RefundStatus::Approved => match to {
            RefundStatus::Executed => true,
            _ => false,
        },
        _ => false,
    }
}

fn event_type_for(to: RefundStatus) -> (r: RefundEventType)
    ensures
        r == event_for(to),
{
    match to {
        RefundStatus::Approved => RefundEventType::Approved,
        RefundStatus::Rejected => RefundEventType::Rejected,
        RefundStatus::Executed => RefundEventType::Executed,
        RefundStatus::Cancelled => RefundEventType::Cancelled,
        RefundStatus::Pending => RefundEventType::Initiated,
    }
}

impl RefundService {
    /// The table is well formed.
    pub closed spec fn wf(&self) -> bool {
        self.refunds.wf()
    }

    /// Refunds by id.
    pub closed spec fn records(&self) -> Map<Seq<char>, RefundRecord> {
        self.refunds@
    }

    /// The audit log.
    pub closed spec fn log(&self) -> Seq<RefundEvent> {
        self.audit_log@
    }

    /// Refunds in order of initiation.
    pub closed spec fn in_order(&self) -> Seq<RefundRecord> {
        self.refunds.entries()
    }

    /// Nothing changed.
    pub open spec fn unchanged(a: RefundService, b: RefundService) -> bool {
        &&& a.records() == b.records()
        &&& a.log() == b.log()
    }

    /// An empty service.
    pub fn new() -> (s: Self)
        ensures
            s.wf(),
            s.records() == Map::<Seq<char>, RefundRecord>::empty(),
            s.log().len() == 0,
    {
        RefundService { refunds: Table::new(), audit_log: Vec::new() }
    }

    /// The refund with id `refund_id`.
    pub fn get_refund(&self, refund_id: &str) -> (r: Option<&RefundRecord>)
        requires
            self.wf(),
        ensures
            match r {
                Some(v) => self.records().dom().contains(refund_id@) && *v == self.records()[refund_id@],
                None => !self.records().dom().contains(refund_id@),
            },
    {
        self.refunds.get(refund_id)
    }

    /// The refunds of order `order_id`, in order of initiation.
    pub fn list_by_order(&self, order_id: &str) -> (r: Vec<&RefundRecord>)
        requires
            self.wf(),
        ensures
            r@.map_values(|x: &RefundRecord| *x) == of_order(self.in_order(), order_id@),
    {
        let mut out: Vec<&RefundRecord> = Vec::new();
        let mut i: usize = 0;
        while i < self.refunds.len()
            invariant
                i <= self.in_order().len(),
                out@.map_values(|x: &RefundRecord| *x) == of_order(
                    self.in_order().take(i as int),
                    order_id@,
                ),
            decreases self.in_order().len() - i,
        {
            let rec = self.refunds.at(i);
            assert(self.in_order().take(i + 1).drop_last() =~= self.in_order().take(i as int));
            if crate::table::str_eq(rec.order_id.as_str(), order_id) {
                out.push(rec);
            }
            assert(out@.map_values(|x: &RefundRecord| *x) =~= of_order(
                self.in_order().take(i + 1),
                order_id@,
            ));
            i = i + 1;
        }
        assert(self.in_order().take(i as int) =~= self.in_order());
        out
    }

    /// Initiates refund `refund_id` of `amount` on order `order_id` at time
    /// `now`; the payment was made at `payment_paid_at` for
    /// `original_amount`, of which `already_refunded` is refunded.
    pub fn initiate_at(
        &mut self,
        refund_id: String,
        order_id: String,
        amount: u128,
        reason: String,
        caller: String,
        payment_paid_at: u64,
        original_amount: u128,
        already_refunded: u128,
        now: u64,
    ) -> (r: Result<(), RefundError>)
        requires
            old(self).wf(),
        ensures
            initiate_post(
                *old(self),
                *final(self),
                r,
                refund_id,
                order_id,
                amount,
                reason,
                caller,
                payment_paid_at,
                original_amount,
                already_refunded,
                now,
            ),
    {
        if self.refunds.contains(refund_id.as_str()) {
            return Err(RefundError::RefundAlreadyExists);
        }
        if amount == 0 {
            return Err(RefundError::InvalidAmount);
        }
        let remaining = if original_amount >= already_refunded {
            original_amount - already_refunded
        } else {
            0
        };
        if amount > remaining {
            return Err(RefundError::AmountExceedsPayment);
        }
        if now as u128 > payment_paid_at as u128 + REFUND_WINDOW_SECS as u128 {
            return Err(RefundError::RefundWindowExpired);
        }
        let record = RefundRecord {
            refund_id: refund_id.clone(),
            order_id: order_id.clone(),
            amount,
            reason,
            status: RefundStatus::Pending,
            initiated_by: caller.clone(),
            initiated_at: now,
            approved_at: None,
            executed_at: None,
            cancelled_at: None,
            payment_paid_at,
        };
        let ghost old_log = self.audit_log@;
        self.refunds.upsert(record);
        self.audit_log.push(
            RefundEvent {
                refund_id,
                order_id,
                event_type: RefundEventType::Initiated,
                actor: caller,
                timestamp: now,
                metadata: None,
            },
        );
        assert(self.audit_log@.drop_last() =~= old_log);
        Ok(())
    }

    /// Moves refund `refund_id` to `to` at time `now`.
    fn advance(
        &mut self,
        refund_id: &str,
        caller: String,
        to: RefundStatus,
        metadata: Option<String>,
        now: u64,
    ) -> (r: Result<(), RefundError>)
        requires
            old(self).wf(),
        ensures
            advance_post(*old(self), *final(self), r, refund_id@, caller, to, metadata, now),
    {
        let rec = match self.refunds.get(refund_id) {
            Some(rec) => copy_record(rec),
            None => return Err(RefundError::RefundNotFound),
        };
        proof {
            crate::table::lemma_index_of_key(self.refunds.entries(), refund_id@);
        }
        assert(rec.refund_id@ == refund_id@);
        if !allowed(rec.status, to) {
            return Err(
                RefundError::InvalidTransition { from: rec.status.to_string(), to: to.to_string() },
            );
        }
        if let RefundStatus::Executed = to {
            if let Some(approved_at) = rec.approved_at {
                if now as u128 > approved_at as u128 + EXECUTION_GRACE_PERIOD_SECS as u128 {
                    return Err(RefundError::ExecutionWindowExpired);
                }
            }
        }
        let order_id = rec.order_id.clone();
        let mut updated = rec;
        updated.status = to;
        match to {
            RefundStatus::Approved => updated.approved_at = Some(now),
            RefundStatus::Executed => updated.executed_at = Some(now),
            RefundStatus::Cancelled => updated.cancelled_at = Some(now),
            _ => {},
        }
        let ghost old_log = self.audit_log@;
        self.refunds.upsert(updated);
        self.audit_log.push(
            RefundEvent {
                refund_id: String::from_str(refund_id),
                order_id,
                event_type: event_type_for(to),
                actor: caller,
                timestamp: now,
                metadata,
            },
        );
        assert(self.audit_log@.drop_last() =~= old_log);
        Ok(())
    }

    /// Approves the pending refund `refund_id` at time `now`.
    pub fn approve_at(&mut self, refund_id: &str, caller: String, now: u64) -> (r: Result<
        (),
        RefundError,
    >)
        requires
            old(self).wf(),
        ensures
            advance_post(
                *old(self),
                *final(self),
                r,
                refund_id@,
                caller,
                RefundStatus::Approved,
                None,
                now,
            ),
    {
        self.advance(refund_id, caller, RefundStatus::Approved, None, now)
    }

    /// Rejects the pending refund `refund_id` at time `now`, with an
    /// optional reason.
    pub fn reject_at(
        &mut self,
        refund_id: &str,
        caller: String,
        reason: Option<String>,
        now: u64,
    ) -> (r: Result<(), RefundError>)
        requires
            old(self).wf(),
        ensures
            advance_post(
                *old(self),
                *final(self),
                r,
                refund_id@,
                caller,
                RefundStatus::Rejected,
                reason,
                now,
            ),
    {
        self.advance(refund_id, caller, RefundStatus::Rejected, reason, now)
    }

    /// Executes the approved refund `refund_id` at time `now`, within the
    /// grace period after its approval.
    pub fn execute_at(&mut self, refund_id: &str, caller: String, now: u64) -> (r: Result<
        (),
        RefundError,
    >)
        requires
            old(self).wf(),
        ensures
            advance_post(
                *old(self),
                *final(self),
                r,
                refund_id@,
                caller,
                RefundStatus::Executed,
                None,
                now,
            ),
    {
        self.advance(refund_id, caller, RefundStatus::Executed, None, now)
    }

    /// Cancels the pending refund `refund_id` at time `now`.
    pub fn cancel_at(&mut self, refund_id: &str, caller: String, now: u64) -> (r: Result<
        (),
        RefundError,
    >)
        requires
            old(self).wf(),
        ensures
            advance_post(
                *old(self),
                *final(self),
                r,
                refund_id@,
                caller,
                RefundStatus::Cancelled,
                None,
                now,
            ),
    {
        self.advance(refund_id, caller, RefundStatus::Cancelled, None, now)
    }

    /// Initiates a refund, stamped with the system clock.
    pub fn initiate(
        &mut self,
        refund_id: String,
        order_id: String,
        amount: u128,
        reason: String,
        caller: String,
        payment_paid_at: u64,
        original_amount: u128,
        already_refunded: u128,
    ) -> (r: Result<(), RefundError>)
        requires
            old(self).wf(),
        ensures
            exists|now: u64|
                initiate_post(
                    *old(self),
                    *final(self),
                    r,
                    refund_id,
                    order_id,
                    amount,
                    reason,
                    caller,
                    payment_paid_at,
                    original_amount,
                    already_refunded,
                    now,
                ),
    {
        let now = crate::clock::now_secs();
        self.initiate_at(
            refund_id,
            order_id,
            amount,
            reason,
            caller,
            payment_paid_at,
            original_amount,
            already_refunded,
            now,
        )
    }

    /// Approves a pending refund, stamped with the system clock.
    pub fn approve(&mut self, refund_id: &str, caller: String) -> (r: Result<(), RefundError>)
        requires
            old(self).wf(),
        ensures
            exists|now: u64|
                advance_post(
                    *old(self),
                    *final(self),
                    r,
                    refund_id@,
                    caller,
                    RefundStatus::Approved,
                    None,
                    now,
                ),
    {
        let now = crate::clock::now_secs();
        self.approve_at(refund_id, caller, now)
    }

    /// Rejects a pending refund, stamped with the system clock.
    pub fn reject(&mut self, refund_id: &str, caller: String, reason: Option<String>) -> (r: Result<
        (),
        RefundError,
    >)
        requires
            old(self).wf(),
        ensures
            exists|now: u64|
                advance_post(
                    *old(self),
                    *final(self),
                    r,
                    refund_id@,
                    caller,
                    RefundStatus::Rejected,
                    reason,
                    now,
                ),
    {
        let now = crate::clock::now_secs();
        self.reject_at(refund_id, caller, reason, now)
    }

    /// Executes an approved refund, stamped with the system clock.
    pub fn execute(&mut self, refund_id: &str, caller: String) -> (r: Result<(), RefundError>)
        requires
            old(self).wf(),
        ensures
            exists|now: u64|
                advance_post(
                    *old(self),
                    *final(self),
                    r,
                    refund_id@,
                    caller,
                    RefundStatus::Executed,
                    None,
                    now,
                ),
    {
        let now = crate::clock::now_secs();
        self.execute_at(refund_id, caller, now)
    }

    /// Cancels a pending refund, stamped with the system clock.
    pub fn cancel(&mut self, refund_id: &str, caller: String) -> (r: Result<(), RefundError>)
        requires
            old(self).wf(),
        ensures
            exists|now: u64|
                advance_post(
                    *old(self),
                    *final(self),
                    r,
                    refund_id@,
                    caller,
                    RefundStatus::Cancelled,
                    None,
                    now,
                ),
    {
        let now = crate::clock::now_secs();
        self.cancel_at(refund_id, caller, now)
    }
}

/// A rejected, cancelled or executed refund never moves again: any
/// further step on it is refused as an invalid transition and changes
/// nothing.
pub proof fn law_final_states_are_final(
    before: RefundService,
    after: RefundService,
    r: Result<(), RefundError>,
    id: Seq<char>,
    caller: String,
    to: RefundStatus,
    metadata: Option<String>,
    now: u64,
)
    requires
        before.records().dom().contains(id),
        is_final(before.records()[id].status),
        advance_post(before, after, r, id, caller, to, metadata, now),
    ensures
        r matches Err(RefundError::InvalidTransition { .. }),
        RefundService::unchanged(before, after),
{
}

/// A step moves a refund only along the listed edges: from `Pending` to
/// `Approved`, `Rejected` or `Cancelled`, and from `Approved` to
/// `Executed`. Every other step is refused and changes nothing.
pub proof fn law_steps_follow_the_listed_edges(
    before: RefundService,
    after: RefundService,
    r: Result<(), RefundError>,
    id: Seq<char>,
    caller: String,
    to: RefundStatus,
    metadata: Option<String>,
    now: u64,
)
    requires
        advance_post(before, after, r, id, caller, to, metadata, now),
    ensures
        r is Ok ==> before.records().dom().contains(id) && after.records()[id].status == to && ({
            let from = before.records()[id].status;
            ||| from == RefundStatus::Pending && to == RefundStatus::Approved
            ||| from == RefundStatus::Pending && to == RefundStatus::Rejected
            ||| from == RefundStatus::Pending && to == RefundStatus::Cancelled
            ||| from == RefundStatus::Approved && to == RefundStatus::Executed
        }),
        r is Err ==> RefundService::unchanged(before, after),
{
    if before.records().dom().contains(id) {
        let rec = before.records()[id];
        if r is Ok {
            assert(after.records()[id] == moved(rec, to, now));
        }
    }
}

/// A refund is executed at most once: once an execution succeeded, a
/// second one is refused and changes nothing.
pub proof fn law_execute_at_most_once(
    s0: RefundService,
    s1: RefundService,
    s2: RefundService,
    r2: Result<(), RefundError>,
    id: Seq<char>,
    caller1: String,
    caller2: String,
    now1: u64,
    now2: u64,
)
    requires
        advance_post(s0, s1, Ok(()), id, caller1, RefundStatus::Executed, None, now1),
        advance_post(s1, s2, r2, id, caller2, RefundStatus::Executed, None, now2),
    ensures
        s1.records()[id].status == RefundStatus::Executed,
        r2 matches Err(RefundError::InvalidTransition { .. }),
        RefundService::unchanged(s1, s2),
{
    assert(s1.records().dom().contains(id));
}

/// Only an approved refund can be executed: a successful execution starts
/// from `Approved` and ends in `Executed`, stamped with its time.
pub proof fn law_execute_requires_approval(
    before: RefundService,
    after: RefundService,
    id: Seq<char>,
    caller: String,
    now: u64,
)
    requires
        advance_post(before, after, Ok(()), id, caller, RefundStatus::Executed, None, now),
    ensures
        before.records()[id].status == RefundStatus::Approved,
        after.records()[id].status == RefundStatus::Executed,
        after.records()[id].executed_at == Some(now),
{
}

} // verus!
