//! The rate budget shared by all outbound calls.
use vstd::prelude::*;
use governor::Quota;
use std::num::NonZeroU32;
use std::time::Duration;
use crate::error::CrawlerError;

verus! {

/// Length of the remote API's rate window, in seconds.
pub const RATE_WINDOW_SECS: u64 = 900;

#[verifier::external_type_specification]
#[verifier::external_body]
pub struct ExQuota(governor::Quota);

/// The quota that allows bursts of `burst` calls and refills the whole burst
/// continuously over `window_secs` seconds.
pub uninterp spec fn quota_for(window_secs: u64, burst: u32) -> Quota;

/// Relies on governor's `Quota::new`: burst capacity `burst`, the whole burst
/// replenished over the given duration, one cell every `window / burst`;
/// `None` exactly when the duration is zero.
#[verifier::external_body]
#[allow(deprecated)]
fn quota_refilled_over(window_secs: u64, burst: u32) -> (r: Option<Quota>)
    requires
        burst > 0,
    ensures
        r is Some <==> window_secs > 0,
        r matches Some(q) ==> q == quota_for(window_secs, burst),
{
    Quota::new(NonZeroU32::new(burst).unwrap(), Duration::from_secs(window_secs))
}

/// The quota of `per_window` calls per rate window: bursts of up to
/// `per_window` calls, refilled continuously over the window. A zero budget
/// is a configuration error.
pub fn build_quota(per_window: u32) -> (r: Result<Quota, CrawlerError>)
    ensures
        r is Ok <==> per_window > 0,
        r is Err ==> (r matches Err(CrawlerError::Config(_))),
        r matches Ok(q) ==> q == quota_for(RATE_WINDOW_SECS, per_window),
{
    if per_window == 0 {
        return Err(CrawlerError::Config("rate_limit_per_15min must be greater than zero".to_owned()));
    }
    match quota_refilled_over(RATE_WINDOW_SECS, per_window) {
        Some(q) => Ok(q),
        None => Err(CrawlerError::Config("invalid rate limit period".to_owned())),
    }
}

} // verus!
