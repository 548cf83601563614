//! The payment-processing contract: merchants, signed payments, refunds,
//! multi-signature payments, history queries, statistics, audit log and
//! data-quality checks, as a state machine over the contract's storage.
pub mod error;
pub mod types;
pub mod helper;
pub mod state;
pub mod data_quality;
pub mod audit;
pub mod laws;
