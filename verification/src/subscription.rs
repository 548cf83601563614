//! Subscription payments: statuses and billing frequencies with their
//! stored names, new subscriptions and invoices, the retry policy and the
//! scheduler's decisions. Storage and the timer loop live with the caller.
use vstd::prelude::*;
use vstd::string::StringExecFns;

use crate::clock::{later_by, UtcTime, MAX_TIMESTAMP, NANOS_PER_SEC};
use crate::retry::{backoff, backoff_secs, two_pow};
use crate::text::{concat2, concat4, decimal, u128_to_decimal};

verus! {

/// Seconds in a day.
pub const SECS_PER_DAY: i64 = 86_400;
/// Days from issue to due date of an invoice.
pub const INVOICE_DUE_DAYS: i64 = 30;

/// Settings of the subscription service.
#[derive(Clone, Debug)]
pub struct SubscriptionConfig {
    pub database_url: String,
    /// Retries of a failed payment.
    pub max_payment_retries: u32,
    /// Delay before the first retry, in seconds.
    pub retry_delay_secs: u64,
    pub enable_auto_payments: bool,
    /// Seconds between two runs of payment processing.
    pub payment_interval_secs: u64,
    pub enable_invoice_generation: bool,
    pub enable_events: bool,
    pub payment_history_retention_days: i32,
    /// Hours a late payment is tolerated.
    pub late_payment_grace_hours: i32,
}

impl Default for SubscriptionConfig {
    fn default() -> (c: Self)
        ensures
            c.database_url@ == "postgresql://localhost/subscriptions"@,
            c.max_payment_retries == 3,
            c.retry_delay_secs == 300,
            c.enable_auto_payments,
            c.payment_interval_secs == 3600,
            c.enable_invoice_generation,
            c.enable_events,
            c.payment_history_retention_days == 365,
            c.late_payment_grace_hours == 24,
    {
        SubscriptionConfig {
            database_url: String::from_str("postgresql://localhost/subscriptions"),
            max_payment_retries: 3,
            retry_delay_secs: 300,
            enable_auto_payments: true,
            payment_interval_secs: 3600,
            enable_invoice_generation: true,
            enable_events: true,
            payment_history_retention_days: 365,
            late_payment_grace_hours: 24,
        }
    }
}

impl SubscriptionConfig {
    /// Seconds to wait before retry number `attempt`: the base delay
    /// doubled `attempt` times.
    pub fn get_retry_delay(&self, attempt: u32) -> (r: u64)
        requires
            two_pow(attempt as nat) <= u64::MAX,
            backoff(self.retry_delay_secs, attempt) <= u64::MAX,
        ensures
            r == backoff(self.retry_delay_secs, attempt),
    {
        backoff_secs(self.retry_delay_secs, attempt)
    }
}

/// Errors of the subscription service.
#[derive(Debug, Clone, PartialEq, Eq)]
pub enum Error {
    /// The database refused; its message.
    DatabaseError(String),
    SubscriptionNotFound(String),
    InvalidStatus(String),
    PaymentFailed(String),
    InvoiceGenerationFailed(String),
    EventEmissionFailed(String),
    ConfigurationError(String),
    SchedulingError(String),
    /// JSON could not be read or written; its message.
    SerializationError(String),
    InvalidConfiguration(String),
    InternalError(String),
}

/// The message of an error.
pub open spec fn error_message(e: Error) -> Seq<char> {
    match e {
        Error::DatabaseError(m) => "Database error: "@ + m@,
        Error::SubscriptionNotFound(m) => "Subscription not found: "@ + m@,
        Error::InvalidStatus(m) => "Invalid subscription status: "@ + m@,
        Error::PaymentFailed(m) => "Payment failed: "@ + m@,
        Error::InvoiceGenerationFailed(m) => "Invoice generation failed: "@ + m@,
        Error::EventEmissionFailed(m) => "Event emission failed: "@ + m@,
        Error::ConfigurationError(m) => "Configuration error: "@ + m@,
        Error::SchedulingError(m) => "Scheduling error: "@ + m@,
        Error::SerializationError(m) => "Serialization error: "@ + m@,
        Error::InvalidConfiguration(m) => "Invalid subscription configuration: "@ + m@,
        Error::InternalError(m) => "Internal error: "@ + m@,
    }
}

impl Error {
    /// The error's message.
    pub fn to_string(&self) -> (r: String)
        ensures
            r@ == error_message(*self),
    {
        match self {
            Error::DatabaseError(m) => concat2("Database error: ", m.as_str()),
            Error::SubscriptionNotFound(m) => concat2("Subscription not found: ", m.as_str()),
            Error::InvalidStatus(m) => concat2("Invalid subscription status: ", m.as_str()),
            Error::PaymentFailed(m) => concat2("Payment failed: ", m.as_str()),
            Error::InvoiceGenerationFailed(m) => concat2("Invoice generation failed: ", m.as_str()),
            Error::EventEmissionFailed(m) => concat2("Event emission failed: ", m.as_str()),
            Error::ConfigurationError(m) => concat2("Configuration error: ", m.as_str()),
            Error::SchedulingError(m) => concat2("Scheduling error: ", m.as_str()),
            Error::SerializationError(m) => concat2("Serialization error: ", m.as_str()),
            Error::InvalidConfiguration(m) => concat2(
                "Invalid subscription configuration: ",
                m.as_str(),
            ),
            Error::InternalError(m) => concat2("Internal error: ", m.as_str()),
        }
    }
}

/// State of a subscription.
#[derive(Clone, Copy, Debug, Eq, PartialEq, Structural)]
pub enum SubscriptionStatus {
    Active,
    Paused,
    PendingPayment,
    PastDue,
    Cancelled,
}

/// The stored name of a status.
pub open spec fn status_name(s: SubscriptionStatus) -> Seq<char> {
    match s {
        SubscriptionStatus::Active => "active"@,
        SubscriptionStatus::Paused => "paused"@,
        SubscriptionStatus::PendingPayment => "pending_payment"@,
        SubscriptionStatus::PastDue => "past_due"@,
        SubscriptionStatus::Cancelled => "cancelled"@,
    }
}

impl SubscriptionStatus {
    /// The stored name of the status.
    pub fn as_str(&self) -> (r: &'static str)
        ensures
            r@ == status_name(*self),
    {
        match self {
            SubscriptionStatus::Active => "active",
            SubscriptionStatus::Paused => "paused",
            SubscriptionStatus::PendingPayment => "pending_payment",
            SubscriptionStatus::PastDue => "past_due",
            SubscriptionStatus::Cancelled => "cancelled",
        }
    }

    /// The stored name, as a `String`.
    pub fn to_string(&self) -> (r: String)
        ensures
            r@ == status_name(*self),
    {
        String::from_str(self.as_str())
    }

    /// The status a stored name reads as; an unknown name reads as active.
    pub fn from_db(s: &str) -> (r: SubscriptionStatus)
        ensures
            status_name(r) == s@ || ((forall|t: SubscriptionStatus| status_name(t) != s@) && r
                == SubscriptionStatus::Active),
    {
        if crate::table::str_eq(s, "active") {
            SubscriptionStatus::Active
        } else if crate::table::str_eq(s, "paused") {
            SubscriptionStatus::Paused
        } else if crate::table::str_eq(s, "pending_payment") {
            SubscriptionStatus::PendingPayment
        } else if crate::table::str_eq(s, "past_due") {
            SubscriptionStatus::PastDue
        } else if crate::table::str_eq(s, "cancelled") {
            SubscriptionStatus::Cancelled
        } else {
            proof {
                assert forall|t: SubscriptionStatus| status_name(t) != s@ by {
                    match t {
                        SubscriptionStatus::Active => {},
                        SubscriptionStatus::Paused => {},
                        SubscriptionStatus::PendingPayment => {},
                        SubscriptionStatus::PastDue => {},
                        SubscriptionStatus::Cancelled => {},
                    }
                }
            }
            SubscriptionStatus::Active
        }
    }
}

/// How often a subscription is billed.
#[derive(Clone, Copy, Debug, Eq, PartialEq, Structural)]
pub enum BillingFrequency {
    Daily,
    Weekly,
    BiWeekly,
    Monthly,
    Quarterly,
    Annually,
}

/// The stored name of a frequency.
pub open spec fn frequency_name(f: BillingFrequency) -> Seq<char> {
    match f {
        BillingFrequency::Daily => "daily"@,
        BillingFrequency::Weekly => "weekly"@,
        BillingFrequency::BiWeekly => "biweekly"@,
        BillingFrequency::Monthly => "monthly"@,
        BillingFrequency::Quarterly => "quarterly"@,
        BillingFrequency::Annually => "annually"@,
    }
}

/// Days in a billing period.
pub open spec fn period_days(f: BillingFrequency) -> i32 {
    match f {
        BillingFrequency::Daily => 1,
        BillingFrequency::Weekly => 7,
        BillingFrequency::BiWeekly => 14,
        BillingFrequency::Monthly => 30,
        BillingFrequency::Quarterly => 90,
        BillingFrequency::Annually => 365,
    }
}

impl BillingFrequency {
    /// The stored name of the frequency.
    pub fn as_str(&self) -> (r: &'static str)
        ensures
            r@ == frequency_name(*self),
    {
        match self {
            BillingFrequency::Daily => "daily",
            BillingFrequency::Weekly => "weekly",
            BillingFrequency::BiWeekly => "biweekly",
            BillingFrequency::Monthly => "monthly",
            BillingFrequency::Quarterly => "quarterly",
            BillingFrequency::Annually => "annually",
        }
    }

    /// Days in a billing period.
    pub fn days(&self) -> (r: i32)
        ensures
            r == period_days(*self),
    {
        match self {
            BillingFrequency::Daily => 1,
            BillingFrequency::Weekly => 7,
            BillingFrequency::BiWeekly => 14,
            BillingFrequency::Monthly => 30,
            BillingFrequency::Quarterly => 90,
            BillingFrequency::Annually => 365,
        }
    }

    /// The frequency a stored name reads as; an unknown name reads as
    /// monthly.
    pub fn from_db(s: &str) -> (r: BillingFrequency)
        ensures
            frequency_name(r) == s@ || ((forall|t: BillingFrequency| frequency_name(t) != s@) && r
                == BillingFrequency::Monthly),
    {
        if crate::table::str_eq(s, "daily") {
            BillingFrequency::Daily
        } else if crate::table::str_eq(s, "weekly") {
            BillingFrequency::Weekly
        } else if crate::table::str_eq(s, "biweekly") {
            BillingFrequency::BiWeekly
        } else if crate::table::str_eq(s, "monthly") {
            BillingFrequency::Monthly
        } else if crate::table::str_eq(s, "quarterly") {
            BillingFrequency::Quarterly
        } else if crate::table::str_eq(s, "annually") {
            BillingFrequency::Annually
        } else {
            proof {
                assert forall|t: BillingFrequency| frequency_name(t) != s@ by {
                    match t {
                        BillingFrequency::Daily => {},
                        BillingFrequency::Weekly => {},
                        BillingFrequency::BiWeekly => {},
                        BillingFrequency::Monthly => {},
                        BillingFrequency::Quarterly => {},
                        BillingFrequency::Annually => {},
                    }
                }
            }
            BillingFrequency::Monthly
        }
    }
}

/// A subscription. Times are UTC instants; the metadata is JSON text.
#[derive(Clone, Debug)]
pub struct Subscription {
    pub id: String,
    pub merchant_id: String,
    pub customer_id: String,
    /// Decimal amount, as stored.
    pub amount: String,
    pub currency: String,
    pub frequency: BillingFrequency,
    pub status: SubscriptionStatus,
    pub started_at: UtcTime,
    pub next_payment_at: UtcTime,
    pub paused_at: Option<UtcTime>,
    pub cancelled_at: Option<UtcTime>,
    pub cancellation_reason: Option<String>,
    pub metadata: String,
    pub created_at: UtcTime,
    pub updated_at: UtcTime,
}

/// A new active subscription with id `id`, started at `now` and first
/// billed one period later, with empty metadata (`{}`).
pub open spec fn fresh_subscription(
    id: String,
    merchant_id: String,
    customer_id: String,
    amount: String,
    currency: String,
    frequency: BillingFrequency,
    now: UtcTime,
    metadata: String,
) -> Subscription {
    Subscription {
        id,
        merchant_id,
        customer_id,
        amount,
        currency,
        frequency,
        status: SubscriptionStatus::Active,
        started_at: now,
        next_payment_at: later_by(now, period_days(frequency) * SECS_PER_DAY),
        paused_at: None,
        cancelled_at: None,
        cancellation_reason: None,
        metadata,
        created_at: now,
        updated_at: now,
    }
}

impl Subscription {
    /// A new active subscription with id `id`, created at `now`.
    pub fn new_at(
        id: String,
        merchant_id: String,
        customer_id: String,
        amount: String,
        currency: String,
        frequency: BillingFrequency,
        now: UtcTime,
    ) -> (r: Self)
        requires
            0 <= now.secs <= MAX_TIMESTAMP,
        ensures
            r.metadata@ == "{}"@,
            r == fresh_subscription(
                id,
                merchant_id,
                customer_id,
                amount,
                currency,
                frequency,
                now,
                r.metadata,
            ),
    {
        let days = frequency.days() as i64;
        Subscription {
            id,
            merchant_id,
            customer_id,
            amount,
            currency,
            frequency,
            status: SubscriptionStatus::Active,
            started_at: now,
            next_payment_at: UtcTime { secs: now.secs + days * SECS_PER_DAY, nanos: now.nanos },
            paused_at: None,
            cancelled_at: None,
            cancellation_reason: None,
            metadata: String::from_str("{}"),
            created_at: now,
            updated_at: now,
        }
    }

    /// A new active subscription with a random id, created now by the UTC
    /// clock.
    pub fn new(
        merchant_id: String,
        customer_id: String,
        amount: String,
        currency: String,
        frequency: BillingFrequency,
    ) -> (r: Self)
        ensures
            r.id@.len() == 36,
            r.metadata@ == "{}"@,
            0 <= r.started_at.secs <= MAX_TIMESTAMP,
            r.started_at.nanos < NANOS_PER_SEC,
            r == fresh_subscription(
                r.id,
                merchant_id,
                customer_id,
                amount,
                currency,
                frequency,
                r.started_at,
                r.metadata,
            ),
    {
        let now = crate::clock::utc_now();
        let id = crate::clock::new_uuid();
        Subscription::new_at(id, merchant_id, customer_id, amount, currency, frequency, now)
    }
}

/// One attempt to collect a subscription payment.
#[derive(Clone, Debug)]
pub struct PaymentAttempt {
    pub id: String,
    pub subscription_id: String,
    pub amount: String,
    pub status: String,
    pub attempt_number: i32,
    pub error_message: Option<String>,
    pub attempted_at: UtcTime,
    pub completed_at: Option<UtcTime>,
}

/// A line of an invoice.
#[derive(Clone, Debug)]
pub struct InvoiceLineItem {
    pub description: String,
    pub amount: String,
    pub quantity: i32,
}

/// An invoice. Times are UTC instants.
#[derive(Clone, Debug)]
pub struct Invoice {
    pub id: String,
    pub subscription_id: String,
    pub merchant_id: String,
    pub customer_id: String,
    pub amount: String,
    pub currency: String,
    pub status: String,
    pub invoice_date: UtcTime,
    pub due_date: UtcTime,
    pub paid_at: Option<UtcTime>,
    pub invoice_number: String,
    pub line_items: Vec<InvoiceLineItem>,
    pub created_at: UtcTime,
}

/// The first `n` characters of `s` (all of it when shorter).
pub open spec fn prefix_of(s: Seq<char>, n: nat) -> Seq<char> {
    if s.len() <= n { s } else { s.take(n as int) }
}

/// The invoice number: `INV-`, the first 8 characters of the subscription
/// id, `-`, and the issue date as `YYYYMMDD`.
pub open spec fn invoice_number_of(subscription_id: Seq<char>, now: UtcTime) -> Seq<char> {
    "INV-"@ + prefix_of(subscription_id, 8) + "-"@ + crate::clock::ymd_of(now.secs)
}

fn first_chars(s: &str, n: usize) -> (r: String)
    ensures
        r@ == prefix_of(s@, n as nat),
{
    let cs = crate::text::chars_of(s);
    let mut out: Vec<char> = Vec::new();
    let mut i: usize = 0;
    while i < cs.len() && i < n
        invariant
            cs@ == s@,
            i <= cs@.len(),
            i <= n,
            out@ == s@.take(i as int),
        decreases cs@.len() - i,
    {
        out.push(cs[i]);
        assert(out@ =~= s@.take(i + 1));
        i = i + 1;
    }
    proof {
        if s@.len() <= n as nat {
            assert(s@.take(i as int) =~= s@);
        }
    }
    crate::text::string_from_chars(&out)
}

/// The invoice for a subscription, issued at `now` with id `invoice_id`:
/// due 30 days later, one line for the subscription payment.
pub fn build_invoice(
    invoice_id: String,
    subscription_id: &str,
    merchant_id: String,
    customer_id: String,
    amount: String,
    currency: String,
    now: UtcTime,
) -> (r: Invoice)
    requires
        0 <= now.secs <= MAX_TIMESTAMP,
    ensures
        r.id == invoice_id,
        r.subscription_id@ == subscription_id@,
        r.merchant_id == merchant_id,
        r.customer_id == customer_id,
        r.amount == amount,
        r.currency == currency,
        r.status@ == "issued"@,
        r.invoice_date == now,
        r.due_date == later_by(now, INVOICE_DUE_DAYS * SECS_PER_DAY),
        r.paid_at is None,
        r.invoice_number@ == invoice_number_of(subscription_id@, now),
        r.line_items@.len() == 1,
        r.line_items@[0].description@ == "Subscription Payment"@,
        r.line_items@[0].amount == amount,
        r.line_items@[0].quantity == 1,
        r.created_at == now,
{
    let head = first_chars(subscription_id, 8);
    let date = crate::clock::format_ymd(now.secs);
    let number = concat4("INV-", head.as_str(), "-", date.as_str());
    let mut line_items: Vec<InvoiceLineItem> = Vec::new();
    line_items.push(
        InvoiceLineItem {
            description: String::from_str("Subscription Payment"),
            amount: amount.clone(),
            quantity: 1,
        },
    );
    Invoice {
        id: invoice_id,
        subscription_id: String::from_str(subscription_id),
        merchant_id,
        customer_id,
        amount,
        currency,
        status: String::from_str("issued"),
        invoice_date: now,
        due_date: UtcTime { secs: now.secs + INVOICE_DUE_DAYS * SECS_PER_DAY, nanos: now.nanos },
        paid_at: None,
        invoice_number: number,
        line_items,
        created_at: now,
    }
}

/// The invoice for a subscription, issued now by the UTC clock with a
/// random id.
pub fn issue_invoice(
    subscription_id: &str,
    merchant_id: String,
    customer_id: String,
    amount: String,
    currency: String,
) -> (r: Invoice)
    ensures
        r.id@.len() == 36,
        0 <= r.invoice_date.secs <= MAX_TIMESTAMP,
        r.invoice_date.nanos < NANOS_PER_SEC,
        r.subscription_id@ == subscription_id@,
        r.merchant_id == merchant_id,
        r.customer_id == customer_id,
        r.amount == amount,
        r.currency == currency,
        r.status@ == "issued"@,
        r.due_date == later_by(r.invoice_date, INVOICE_DUE_DAYS * SECS_PER_DAY),
        r.paid_at is None,
        r.invoice_number@ == invoice_number_of(subscription_id@, r.invoice_date),
        r.line_items@.len() == 1,
        r.line_items@[0].description@ == "Subscription Payment"@,
        r.line_items@[0].amount == amount,
        r.line_items@[0].quantity == 1,
        r.created_at == r.invoice_date,
{
    let now = crate::clock::utc_now();
    let id = crate::clock::new_uuid();
    build_invoice(id, subscription_id, merchant_id, customer_id, amount, currency, now)
}

/// The data of the event that a processing run publishes: `{"count":n}`
/// when it processed `n > 0` payments; no event otherwise.
pub fn processed_event_data(count: usize) -> (r: Option<String>)
    ensures
        count == 0 ==> r is None,
        count > 0 ==> (r matches Some(d) && d@ == "{\"count\":"@ + decimal(count as nat) + "}"@),
{
    if count == 0 {
        return None;
    }
    let n = u128_to_decimal(count as u128);
    Some(crate::text::concat3("{\"count\":", n.as_str(), "}"))
}

/// What starting the scheduler does: refused while it runs, otherwise it
/// runs from then on.
pub fn start_scheduler(running: bool) -> (r: Result<bool, Error>)
    ensures
        running ==> (r matches Err(Error::SchedulingError(m)) && m@ == "Scheduler is already running"@),
        !running ==> r == Ok::<bool, Error>(true),
{
    if running {
        return Err(Error::SchedulingError(String::from_str("Scheduler is already running")));
    }
    Ok(true)
}

/// A new subscription is billed exactly one period after it starts, and
/// the period grows with the frequency.
pub proof fn law_first_bill_one_period_later(
    id: String,
    merchant_id: String,
    customer_id: String,
    amount: String,
    currency: String,
    frequency: BillingFrequency,
    now: UtcTime,
    metadata: String,
)
    requires
        0 <= now.secs <= MAX_TIMESTAMP,
    ensures
        fresh_subscription(id, merchant_id, customer_id, amount, currency, frequency, now, metadata).next_payment_at.secs
            - now.secs == period_days(frequency) * SECS_PER_DAY,
        fresh_subscription(id, merchant_id, customer_id, amount, currency, frequency, now, metadata).next_payment_at.secs
            > now.secs,
        fresh_subscription(id, merchant_id, customer_id, amount, currency, frequency, now, metadata).next_payment_at.nanos
            == now.nanos,
{
}

/// A new subscription is first billed one period after it starts, at the
/// same point of the second, where the period is a day for daily billing,
/// a week for weekly, two weeks for bi-weekly, thirty days for monthly,
/// ninety days for quarterly and 365 days for annual billing: a bi-weekly
/// period is two weekly ones, a weekly one seven daily ones, and a
/// quarterly one three monthly ones.
pub proof fn law_billing_periods(
    id: String,
    merchant_id: String,
    customer_id: String,
    amount: String,
    currency: String,
    frequency: BillingFrequency,
    now: UtcTime,
    metadata: String,
)
    requires
        0 <= now.secs <= MAX_TIMESTAMP,
    ensures
        ({
            let next = fresh_subscription(
                id,
                merchant_id,
                customer_id,
                amount,
                currency,
                frequency,
                now,
                metadata,
            ).next_payment_at;
            &&& next.nanos == now.nanos
            &&& next.secs - now.secs == 86_400 * match frequency {
                BillingFrequency::Daily => 1int,
                BillingFrequency::Weekly => 7int,
                BillingFrequency::BiWeekly => 14int,
                BillingFrequency::Monthly => 30int,
                BillingFrequency::Quarterly => 90int,
                BillingFrequency::Annually => 365int,
            }
        }),
        period_days(BillingFrequency::BiWeekly) == 2 * period_days(BillingFrequency::Weekly),
        period_days(BillingFrequency::Weekly) == 7 * period_days(BillingFrequency::Daily),
        period_days(BillingFrequency::Quarterly) == 3 * period_days(BillingFrequency::Monthly),
        period_days(BillingFrequency::Daily) == 1,
{
}

} // verus!
