//! The rate limit as data. The token bucket itself blocks on the clock, so
//! it lives with the rest of the waiting I/O outside this crate; what this
//! crate owns — and verifies — is the conversion of the configured rate into
//! the per-minute quota the bucket is built with, and the rule for when that
//! quota is usable.
use vstd::prelude::*;

verus! {

/// The per-minute quota for a rate given in milli-requests per second: sixty
/// times the rate in whole requests, saturated to what a 32-bit quota holds.
pub open spec fn spec_per_minute(milli: u64) -> int {
    if milli >= 71582788267 {
        4294967295
    } else {
        milli * 60 / 1000
    }
}

/// Computes the per-minute quota for a rate in milli-requests per second.
/// A quota of zero (a rate below one request per minute) cannot drive a
/// token bucket; callers must reject it.
pub fn per_minute_quota(rate_limit_milli: u64) -> (q: u32)
    ensures
        q == spec_per_minute(rate_limit_milli),
{
    if rate_limit_milli >= 71582788267 {
        4294967295u32
    } else {
        (rate_limit_milli * 60 / 1000) as u32
    }
}

} // verus!
