//! The clock boundary: reading the current time.

use vstd::prelude::*;

verus! {

/// Relies on chrono::Utc::now: the result depends on the system clock, so
/// nothing is assumed of its value.
#[verifier::external_body]
fn unix_now() -> (t: i64) {
    chrono::Utc::now().timestamp()
}

/// Verification codes and session tokens both live for 24 hours.
pub const DAY_SECONDS: i64 = 86400;

/// The time 24 hours after `t`, saturating at the largest representable
/// time.
pub open spec fn day_after(t: i64) -> i64 {
    if t > i64::MAX - DAY_SECONDS {
        i64::MAX
    } else {
        (t + DAY_SECONDS) as i64
    }
}

/// Computes the expiry 24 hours after `t`.
pub fn add_day(t: i64) -> (r: i64)
    ensures
        r == day_after(t),
{
    if t > i64::MAX - DAY_SECONDS {
        i64::MAX
    } else {
        t + DAY_SECONDS
    }
}

/// The current Unix timestamp, clamped below at the epoch so that every
/// time the core works with is non-negative.
pub fn current_time() -> (t: i64)
    ensures
        t >= 0,
{
    let t = unix_now();
    if t < 0 {
        0
    } else {
        t
    }
}

} // verus!
