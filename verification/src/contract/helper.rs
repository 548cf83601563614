//! Validation and filtering helpers of the payment contract.
use vstd::prelude::*;
use vstd::string::StringSliceAdditionalSpecFns;

use super::error::PaymentError;
use super::types::{PaymentFilter, PaymentRecord, PaymentStatus, StatusFilter};

verus! {

/// Rejects non-positive amounts.
pub fn validate_amount(amount: i128) -> (r: Result<(), PaymentError>)
    ensures
        r == if amount <= 0 {
            Err::<(), PaymentError>(PaymentError::InvalidAmount)
        } else {
            Ok(())
        },
{
    if amount <= 0 {
        return Err(PaymentError::InvalidAmount);
    }
    Ok(())
}

/// Byte length of a string's UTF-8 encoding.
pub open spec fn byte_len(s: Seq<char>) -> nat {
    vstd::utf8::encode_utf8(s).len()
}

/// Every byte of the encoding of `s` is printable ASCII (0x20..=0x7E).
pub open spec fn printable_ascii(s: Seq<char>) -> bool {
    forall|i: int|
        0 <= i < byte_len(s) ==> 0x20 <= #[trigger] vstd::utf8::encode_utf8(s)[i] <= 0x7e
}

/// Merchant text fields are within their limits: name at most 64 bytes,
/// description at most 256 bytes, contact info at most 128 bytes of
/// printable ASCII.
pub open spec fn merchant_fields_ok(name: Seq<char>, description: Seq<char>, contact: Seq<char>) -> bool {
    &&& byte_len(name) <= 64
    &&& byte_len(description) <= 256
    &&& byte_len(contact) <= 128
    &&& printable_ascii(contact)
}

/// Checks the merchant text fields.
pub fn validate_merchant_fields(name: &str, description: &str, contact_info: &str) -> (r: Result<
    (),
    PaymentError,
>)
    ensures
        r is Ok <==> merchant_fields_ok(name@, description@, contact_info@),
        r is Err ==> r == Err::<(), PaymentError>(PaymentError::InvalidInput),
{
    if name.as_bytes().len() > 64 {
        return Err(PaymentError::InvalidInput);
    }
    if description.as_bytes().len() > 256 {
        return Err(PaymentError::InvalidInput);
    }
    let bytes = contact_info.as_bytes();
    if bytes.len() > 128 {
        return Err(PaymentError::InvalidInput);
    }
    let mut i: usize = 0;
    while i < bytes.len()
        invariant
            bytes@ == vstd::utf8::encode_utf8(contact_info@),
            i <= bytes.len(),
            forall|j: int| 0 <= j < i ==> 0x20 <= #[trigger] bytes@[j] <= 0x7e,
        decreases bytes.len() - i,
    {
        let b = bytes[i];
        if b < 0x20 || b > 0x7e {
            return Err(PaymentError::InvalidInput);
        }
        i = i + 1;
    }
    Ok(())
}

/// An order identifier is between 1 and 64 bytes long.
pub open spec fn order_id_ok(order_id: Seq<char>) -> bool {
    1 <= byte_len(order_id) <= 64
}

/// Checks the length of an order identifier.
pub fn validate_order_id(order_id: &str) -> (r: Result<(), PaymentError>)
    ensures
        r == if order_id_ok(order_id@) {
            Ok::<(), PaymentError>(())
        } else {
            Err(PaymentError::InvalidInput)
        },
{
    let len = order_id.as_bytes().len();
    if len == 0 || len > 64 {
        return Err(PaymentError::InvalidInput);
    }
    Ok(())
}

/// Strict ed25519 verification of `signature` over `message` with `public_key`.
pub uninterp spec fn ed25519_verify_strict(
    public_key: Seq<u8>,
    message: Seq<u8>,
    signature: Seq<u8>,
) -> bool;

/// Calls `ed25519_dalek::VerifyingKey::from_bytes` and `verify_strict`, the
/// check that the Soroban host runs for `ed25519_verify`; a key that does
/// not decode fails. The result is named, not stated.
#[verifier::external_body]
fn ed25519_verify(public_key: &[u8; 32], message: &[u8], signature: &[u8; 64]) -> (r: bool)
    ensures
        r == ed25519_verify_strict(public_key@, message@, signature@),
{
    match ed25519_dalek::VerifyingKey::from_bytes(public_key) {
        Ok(key) => key.verify_strict(message, &ed25519_dalek::Signature::from_bytes(signature)).is_ok(),
        Err(_) => false,
    }
}

/// Verifies an ed25519 signature over `payload`.
pub fn verify_signature(public_key: &[u8; 32], payload: &str, signature: &[u8; 64]) -> (r: Result<
    (),
    PaymentError,
>)
    ensures
        r == if ed25519_verify_strict(
            public_key@,
            vstd::utf8::encode_utf8(payload@),
            signature@,
        ) {
            Ok::<(), PaymentError>(())
        } else {
            Err(PaymentError::InvalidSignature)
        },
{
    if ed25519_verify(public_key, payload.as_bytes(), signature) {
        Ok(())
    } else {
        Err(PaymentError::InvalidSignature)
    }
}

/// The status a filter keeps.
pub open spec fn status_passes(s: PaymentStatus, f: StatusFilter) -> bool {
    match f {
        StatusFilter::Any => true,
        StatusFilter::Completed => s == PaymentStatus::Completed,
        StatusFilter::PartiallyRefunded => s == PaymentStatus::PartiallyRefunded,
        StatusFilter::FullyRefunded => s == PaymentStatus::FullyRefunded,
    }
}

/// A payment passes a filter: each bound that is set holds.
pub open spec fn passes_filter(r: PaymentRecord, f: PaymentFilter) -> bool {
    &&& (f.date_start matches Some(start) ==> r.paid_at >= start)
    &&& (f.date_end matches Some(end) ==> r.paid_at <= end)
    &&& (f.amount_min matches Some(min) ==> r.amount >= min)
    &&& (f.amount_max matches Some(max) ==> r.amount <= max)
    &&& (f.token matches Some(t) ==> r.token@ == t@)
    &&& status_passes(r.status, f.status)
}

/// Whether `record` passes `filter`.
pub fn matches_filter(record: &PaymentRecord, filter: &PaymentFilter) -> (r: bool)
    ensures
        r == passes_filter(*record, *filter),
{
    if let Some(start) = filter.date_start {
        if record.paid_at < start {
            return false;
        }
    }
    if let Some(end) = filter.date_end {
        if record.paid_at > end {
            return false;
        }
    }
    if let Some(min) = filter.amount_min {
        if record.amount < min {
            return false;
        }
    }
    if let Some(max) = filter.amount_max {
        if record.amount > max {
            return false;
        }
    }
    if let Some(token) = &filter.token {
        if !crate::table::str_eq(record.token.as_str(), token.as_str()) {
            return false;
        }
    }
    match filter.status {
        StatusFilter::Any => {},
        StatusFilter::Completed => {
            if record.status != PaymentStatus::Completed {
                return false;
            }
        },
        StatusFilter::PartiallyRefunded => {
            if record.status != PaymentStatus::PartiallyRefunded {
                return false;
            }
        },
        StatusFilter::FullyRefunded => {
            if record.status != PaymentStatus::FullyRefunded {
                return false;
            }
        },
    }
    true
}

} // verus!
