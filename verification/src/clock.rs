//! Wall-clock and monotonic time and random identifiers, read from the
//! system.
use vstd::prelude::*;

verus! {

#[verifier::external_type_specification]
#[verifier::external_body]
pub struct ExInstant(std::time::Instant);

/// A reading of the monotonic clock (`std::time::Instant::now`).
/// Nothing is promised of it: it is read from the system.
#[verifier::external_body]
pub fn instant_now() -> std::time::Instant {
    std::time::Instant::now()
}

/// Whole milliseconds elapsed on the monotonic clock since `origin`
/// (`Instant::elapsed`, then `Duration::as_millis`, capped at `u64::MAX`).
/// Nothing is promised of the value: it is read from the system.
#[verifier::external_body]
pub fn millis_since(origin: &std::time::Instant) -> u64 {
    u64::try_from(origin.elapsed().as_millis()).unwrap_or(u64::MAX)
}

/// Current Unix time in milliseconds (`chrono::Utc::now().timestamp_millis()`).
/// Nothing is promised of the value: it is read from the system clock.
#[verifier::external_body]
pub fn now_unix_ms() -> i64 {
    chrono::Utc::now().timestamp_millis()
}

/// Current time as RFC 3339 text (`chrono::Utc::now().to_rfc3339()`).
/// Nothing is promised of the value: it is read from the system clock.
#[verifier::external_body]
pub fn now_rfc3339() -> String {
    chrono::Utc::now().to_rfc3339()
}

/// Current Unix time in nanoseconds (`chrono::Utc::now().timestamp_nanos_opt()`),
/// `None` when it does not fit in an `i64`.
/// Nothing is promised of the value: it is read from the system clock.
#[verifier::external_body]
fn utc_now_nanos_opt() -> Option<i64> {
    chrono::Utc::now().timestamp_nanos_opt()
}

/// Current Unix time in microseconds (`chrono::Utc::now().timestamp_micros()`).
/// Nothing is promised of the value: it is read from the system clock.
#[verifier::external_body]
fn utc_now_micros() -> i64 {
    chrono::Utc::now().timestamp_micros()
}

/// Nanoseconds from a reading that may be out of range: the reading
/// itself, or else microseconds times 1000 (saturating at the `i64` bounds).
pub fn nanos_or_micros(nanos: Option<i64>, micros: i64) -> (r: i64)
    ensures
        nanos matches Some(n) ==> r == n,
        nanos is None && i64::MIN <= micros * 1000 <= i64::MAX ==> r == micros * 1000,
        nanos is None && micros * 1000 > i64::MAX ==> r == i64::MAX,
        nanos is None && micros * 1000 < i64::MIN ==> r == i64::MIN,
{
    match nanos {
        Some(n) => n,
        None => {
            if micros > 9223372036854775i64 {
                i64::MAX
            } else if micros < -9223372036854775i64 {
                i64::MIN
            } else {
                micros * 1000
            }
        },
    }
}

/// Current Unix time in nanoseconds, falling back to microseconds times
/// 1000 when nanoseconds do not fit.
pub fn now_timestamp_nanos() -> i64 {
    let n = utc_now_nanos_opt();
    if n.is_some() {
        nanos_or_micros(n, 0)
    } else {
        nanos_or_micros(n, utc_now_micros())
    }
}

} // verus!
