//! Access to wall-clock time and calendar formatting through chrono.
use vstd::prelude::*;

verus! {

/// The RFC 3339 rendering of a millisecond timestamp; a pure function of the
/// timestamp alone (UTC, no locale or zone involved).
pub uninterp spec fn spec_rfc3339(ms: int) -> Seq<char>;

/// Relies on `chrono::Utc::now` / `timestamp_millis`: the current wall-clock
/// time as milliseconds since the Unix epoch. Nothing can be promised of it.
#[verifier::external_body]
pub fn now_millis() -> i64 {
    chrono::Utc::now().timestamp_millis()
}

/// Relies on `chrono::DateTime::from_timestamp_millis` and `to_rfc3339`: the
/// rendering depends on the millisecond value alone. Out-of-range timestamps
/// render as the empty string.
#[verifier::external_body]
pub fn rfc3339_of(ms: i64) -> (r: String)
    ensures
        r@ == spec_rfc3339(ms as int),
{
    match chrono::DateTime::<chrono::Utc>::from_timestamp_millis(ms) {
        Some(t) => t.to_rfc3339(),
        None => String::new(),
    }
}

} // verus!
