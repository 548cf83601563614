//! Verified core of the Pulsar payment platform: the payment-processing
//! contract's state machine and the off-chain services around it.
use vstd::prelude::*;

pub mod clock;
pub mod retry;
pub mod text;
pub mod table;
pub mod idempotency;
pub mod reconciliation;
pub mod sort;
pub mod contract;
pub mod refund_management;
pub mod rate_limiting;
pub mod merchant;
pub mod search;
pub mod batch;
pub mod subscription;
pub mod analytics;

verus! {

} // verus!
