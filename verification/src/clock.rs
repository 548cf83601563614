//! Clocks and identifiers from the outside world: the system clock, the
//! UTC clock and calendar of `chrono`, and random v4 UUIDs.
use vstd::prelude::*;

verus! {

/// Latest Unix time that `chrono` represents: 262142-12-31T23:59:59Z.
pub const MAX_TIMESTAMP: i64 = 8_210_266_876_799;

/// Current Unix time in seconds, from the system clock (0 if the clock is
/// set before 1970). Nothing is promised of the value: it is the time.
#[verifier::external_body]
pub(crate) fn now_secs() -> u64 {
    std::time::SystemTime::now().duration_since(std::time::UNIX_EPOCH).unwrap_or_default().as_secs()
}

/// Nanoseconds in a second.
pub const NANOS_PER_SEC: u32 = 1_000_000_000;

/// A UTC instant: whole seconds since 1970-01-01T00:00:00Z and the
/// nanoseconds into that second.
#[derive(Clone, Copy, Debug, PartialEq, Eq, Structural)]
pub struct UtcTime {
    pub secs: i64,
    pub nanos: u32,
}

/// The instant `secs` seconds after `t`, at the same point of the second.
pub open spec fn later_by(t: UtcTime, secs: int) -> UtcTime {
    UtcTime { secs: (t.secs + secs) as i64, nanos: t.nanos }
}

/// The current instant, from `chrono::Utc::now()`, taken apart by its
/// `timestamp` and `timestamp_subsec_nanos`. That call returns only for a
/// clock at or after 1970 and within the range of `DateTime<Utc>`; it
/// builds the instant from the system clock's whole seconds and sub-second
/// nanoseconds, so the nanoseconds are below one second. That is all this
/// states of the value.
#[verifier::external_body]
pub(crate) fn utc_now() -> (r: UtcTime)
    ensures
        0 <= r.secs <= MAX_TIMESTAMP,
        r.nanos < NANOS_PER_SEC,
{
    let now = chrono::Utc::now();
    UtcTime { secs: now.timestamp(), nanos: now.timestamp_subsec_nanos() }
}

/// The UTC calendar date of the Unix time `secs`, formatted `%Y%m%d` by
/// `chrono`.
pub uninterp spec fn ymd_of(secs: i64) -> Seq<char>;

/// Formats the UTC date of `secs` as `chrono` does with `%Y%m%d`, through
/// `DateTime::from_timestamp(secs, 0)` (which succeeds on the range
/// required) and `DateTime::format`.
#[verifier::external_body]
pub(crate) fn format_ymd(secs: i64) -> (r: String)
    requires
        0 <= secs <= MAX_TIMESTAMP,
    ensures
        r@ == ymd_of(secs),
{
    chrono::DateTime::from_timestamp(secs, 0).unwrap().format("%Y%m%d").to_string()
}

/// A random version-4 UUID from `uuid::Uuid::new_v4()`, in the hyphenated
/// lower-case form that its `Display` writes: 36 characters. Nothing else
/// is promised of the value: it is random.
#[verifier::external_body]
pub(crate) fn new_uuid() -> (r: String)
    ensures
        r@.len() == 36,
{
    uuid::Uuid::new_v4().to_string()
}

} // verus!
