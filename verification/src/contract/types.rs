//! Data of the payment contract. Addresses are held as their text
//! (strkey) form and identifiers as text.
use vstd::prelude::*;

use super::audit::AuditAction;

verus! {

/// Category of a merchant.
#[derive(Clone, Copy, Debug, Eq, PartialEq, Structural)]
pub enum MerchantCategory {
    Retail,
    Food,
    Services,
    Digital,
    Other,
}

/// A registered merchant.
#[derive(Clone, Debug, Eq, PartialEq)]
pub struct Merchant {
    pub address: String,
    pub name: String,
    pub description: String,
    pub contact_info: String,
    pub category: MerchantCategory,
    pub active: bool,
    pub registered_at: u64,
    pub signing_public_key: Option<[u8; 32]>,
}

/// Refund state of a payment.
#[derive(Clone, Copy, Debug, Eq, PartialEq, Structural)]
pub enum PaymentStatus {
    Completed,
    PartiallyRefunded,
    FullyRefunded,
}

/// An order to pay.
#[derive(Clone, Debug, Eq, PartialEq)]
pub struct PaymentOrder {
    pub order_id: String,
    pub merchant_address: String,
    pub payer: String,
    pub token: String,
    pub amount: i128,
    pub description: String,
    /// Unix time (seconds) at which the order expires; `0` never expires.
    pub expires_at: u64,
}

/// A processed payment.
#[derive(Clone, Debug, Eq, PartialEq)]
pub struct PaymentRecord {
    pub order_id: String,
    pub merchant_address: String,
    pub payer: String,
    pub token: String,
    pub amount: i128,
    pub refunded_amount: i128,
    pub pending_refund_amount: i128,
    pub status: PaymentStatus,
    pub paid_at: u64,
    pub description: String,
}

/// State of a refund request.
#[derive(Clone, Copy, Debug, Eq, PartialEq, Structural)]
pub enum RefundStatus {
    Pending,
    Approved,
    Rejected,
    Completed,
}

/// A refund request.
#[derive(Clone, Debug, Eq, PartialEq)]
pub struct RefundRecord {
    pub refund_id: String,
    pub order_id: String,
    pub amount: i128,
    pub reason: String,
    pub status: RefundStatus,
    pub initiated_by: String,
    pub initiated_at: u64,
}

/// A payment held in escrow until every required signer has signed.
#[derive(Clone, Debug, Eq, PartialEq)]
pub struct MultisigPayment {
    pub payment_id: String,
    pub order: PaymentOrder,
    pub required_signers: Vec<String>,
    pub signatures: Vec<String>,
    pub executed: bool,
    pub expires_at: u64,
    pub created_at: u64,
}

/// Field to sort payment history by.
#[derive(Clone, Copy, Debug, Eq, PartialEq, Structural)]
pub enum SortField {
    Date,
    Amount,
}

/// Direction of a sort.
#[derive(Clone, Copy, Debug, Eq, PartialEq, Structural)]
pub enum SortOrder {
    Ascending,
    Descending,
}

/// Payment status a history query keeps.
#[derive(Clone, Copy, Debug, Eq, PartialEq, Structural)]
pub enum StatusFilter {
    Any,
    Completed,
    PartiallyRefunded,
    FullyRefunded,
}

/// Filter of a payment history query; every bound is optional.
#[derive(Clone, Debug, Eq, PartialEq)]
pub struct PaymentFilter {
    pub date_start: Option<u64>,
    pub date_end: Option<u64>,
    pub amount_min: Option<i128>,
    pub amount_max: Option<i128>,
    pub token: Option<String>,
    pub status: StatusFilter,
}

/// A page of payment history.
#[derive(Clone, Debug, Eq, PartialEq)]
pub struct PaymentPage {
    pub records: Vec<PaymentRecord>,
    /// The `order_id` of the last record on the page when more follow; the
    /// next page starts after it.
    pub next_cursor: Option<String>,
    pub total: u32,
}

/// Aggregate payment and refund statistics.
#[derive(Clone, Copy, Debug, Eq, PartialEq, Structural)]
pub struct GlobalStats {
    pub total_payments: u64,
    pub total_volume: i128,
    pub total_refunds: u64,
    pub total_refund_volume: i128,
}

/// Admin set with an approval threshold.
#[derive(Clone, Debug, Eq, PartialEq)]
pub struct AdminConfig {
    pub admins: Vec<String>,
    pub threshold: u32,
}

/// A token transfer that the contract asks the token contract to perform.
#[derive(Clone, Debug, Eq, PartialEq)]
pub struct TokenTransfer {
    pub token: String,
    pub from: String,
    pub to: String,
    pub amount: i128,
}

/// An event the contract publishes.
#[derive(Clone, Debug, Eq, PartialEq)]
pub enum ContractEvent {
    AdminSet { admin: String },
    MerchantRegistered { merchant: String },
    MerchantUpdated { merchant: String },
    PaymentProcessed { order_id: String, payer: String, merchant: String, amount: i128 },
    RefundInitiated { refund_id: String, caller: String, amount: i128 },
    RefundApproved { refund_id: String },
    RefundRejected { refund_id: String },
    RefundExecuted { refund_id: String, amount: i128 },
    MultisigInitiated { payment_id: String, initiator: String },
    MultisigSigned { payment_id: String, signer: String },
    MultisigExecuted { payment_id: String, executor: String, amount: i128 },
    Audit {
        index: u64,
        timestamp: u64,
        action: AuditAction,
        actor: String,
        target_id: String,
    },
    DataQualityChecked {
        generated_at: u64,
        total_checked: u32,
        critical_count: u32,
        warning_count: u32,
    },
}

/// The topic of an event.
pub open spec fn event_topic(e: ContractEvent) -> Seq<char> {
    match e {
        ContractEvent::AdminSet { .. } => "admin_set"@,
        ContractEvent::MerchantRegistered { .. } => "merchant_registered"@,
        ContractEvent::MerchantUpdated { .. } => "merchant_updated"@,
        ContractEvent::PaymentProcessed { .. } => "payment_processed"@,
        ContractEvent::RefundInitiated { .. } => "refund_initiated"@,
        ContractEvent::RefundApproved { .. } => "refund_approved"@,
        ContractEvent::RefundRejected { .. } => "refund_rejected"@,
        ContractEvent::RefundExecuted { .. } => "refund_executed"@,
        ContractEvent::MultisigInitiated { .. } => "multisig_initiated"@,
        ContractEvent::MultisigSigned { .. } => "multisig_signed"@,
        ContractEvent::MultisigExecuted { .. } => "multisig_executed"@,
        ContractEvent::Audit { .. } => "audit"@,
        ContractEvent::DataQualityChecked { .. } => "dq_check"@,
    }
}

impl ContractEvent {
    /// The topic under which the event is published.
    pub fn topic(&self) -> (r: &'static str)
        ensures
            r@ == event_topic(*self),
    {
        match self {
            ContractEvent::AdminSet { .. } => "admin_set",
            ContractEvent::MerchantRegistered { .. } => "merchant_registered",
            ContractEvent::MerchantUpdated { .. } => "merchant_updated",
            ContractEvent::PaymentProcessed { .. } => "payment_processed",
            ContractEvent::RefundInitiated { .. } => "refund_initiated",
            ContractEvent::RefundApproved { .. } => "refund_approved",
            ContractEvent::RefundRejected { .. } => "refund_rejected",
            ContractEvent::RefundExecuted { .. } => "refund_executed",
            ContractEvent::MultisigInitiated { .. } => "multisig_initiated",
            ContractEvent::MultisigSigned { .. } => "multisig_signed",
            ContractEvent::MultisigExecuted { .. } => "multisig_executed",
            ContractEvent::Audit { .. } => "audit",
            ContractEvent::DataQualityChecked { .. } => "dq_check",
        }
    }
}

} // verus!
