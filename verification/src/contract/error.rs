//! Errors of the payment contract.
use vstd::prelude::*;

verus! {

/// Errors returned by the payment contract.
#[derive(Copy, Clone, Debug, Eq, PartialEq, Structural)]
pub enum PaymentError {
    // Auth
    Unauthorized,
    AdminAlreadySet,
    // Merchant
    MerchantNotFound,
    MerchantAlreadyRegistered,
    MerchantInactive,
    // Payment
    PaymentNotFound,
    PaymentAlreadyExists,
    InvalidAmount,
    InvalidSignature,
    PaymentExpired,
    InsufficientBalance,
    // Refund
    RefundNotFound,
    RefundAlreadyExists,
    RefundWindowExpired,
    RefundAmountExceedsPayment,
    RefundNotApproved,
    RefundAlreadyCompleted,
    // Multisig
    MultisigNotFound,
    MultisigAlreadySigned,
    MultisigAlreadyExecuted,
    InsufficientSignatures,
    // General
    InvalidInput,
    StorageError,
    ArithmeticError,
}

/// The numeric code of an error, as the contract reports it.
pub open spec fn error_code(e: PaymentError) -> u32 {
    match e {
        PaymentError::Unauthorized => 1,
        PaymentError::AdminAlreadySet => 2,
        PaymentError::MerchantNotFound => 10,
        PaymentError::MerchantAlreadyRegistered => 11,
        PaymentError::MerchantInactive => 12,
        PaymentError::PaymentNotFound => 20,
        PaymentError::PaymentAlreadyExists => 21,
        PaymentError::InvalidAmount => 22,
        PaymentError::InvalidSignature => 23,
        PaymentError::PaymentExpired => 24,
        PaymentError::InsufficientBalance => 25,
        PaymentError::RefundNotFound => 30,
        PaymentError::RefundAlreadyExists => 31,
        PaymentError::RefundWindowExpired => 32,
        PaymentError::RefundAmountExceedsPayment => 33,
        PaymentError::RefundNotApproved => 34,
        PaymentError::RefundAlreadyCompleted => 35,
        PaymentError::MultisigNotFound => 40,
        PaymentError::MultisigAlreadySigned => 41,
        PaymentError::MultisigAlreadyExecuted => 42,
        PaymentError::InsufficientSignatures => 43,
        PaymentError::InvalidInput => 50,
        PaymentError::StorageError => 51,
        PaymentError::ArithmeticError => 52,
    }
}

impl PaymentError {
    /// The numeric code of the error.
    pub fn code(&self) -> (r: u32)
        ensures
            r == error_code(*self),
    {
        match self {
            PaymentError::Unauthorized => 1,
            PaymentError::AdminAlreadySet => 2,
            PaymentError::MerchantNotFound => 10,
            PaymentError::MerchantAlreadyRegistered => 11,
            PaymentError::MerchantInactive => 12,
            PaymentError::PaymentNotFound => 20,
            PaymentError::PaymentAlreadyExists => 21,
            PaymentError::InvalidAmount => 22,
            PaymentError::InvalidSignature => 23,
            PaymentError::PaymentExpired => 24,
            PaymentError::InsufficientBalance => 25,
            PaymentError::RefundNotFound => 30,
            PaymentError::RefundAlreadyExists => 31,
            PaymentError::RefundWindowExpired => 32,
            PaymentError::RefundAmountExceedsPayment => 33,
            PaymentError::RefundNotApproved => 34,
            PaymentError::RefundAlreadyCompleted => 35,
            PaymentError::MultisigNotFound => 40,
            PaymentError::MultisigAlreadySigned => 41,
            PaymentError::MultisigAlreadyExecuted => 42,
            PaymentError::InsufficientSignatures => 43,
            PaymentError::InvalidInput => 50,
            PaymentError::StorageError => 51,
            PaymentError::ArithmeticError => 52,
        }
    }
}

} // verus!
