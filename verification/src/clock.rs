//! The machine's clocks.
//!
//! Time is a number of nanoseconds counted from an instant that the owner of
//! the measure chose. What a clock shows is not stated: the functions that
//! decide take the reading as an argument.

use vstd::prelude::*;

verus! {

#[verifier::external_type_specification]
#[verifier::external_body]
pub struct ExInstant(std::time::Instant);

/// Nanoseconds in a second.
pub const SECOND: u128 = 1_000_000_000;

/// `Instant::now` reads the monotonic clock. Nothing is claimed of the reading.
#[verifier::external_body]
pub(crate) fn start() -> std::time::Instant {
    std::time::Instant::now()
}

/// `Instant::elapsed` measures the time since `epoch`. Nothing is claimed of the
/// measure.
#[verifier::external_body]
pub(crate) fn nanos_since(epoch: &std::time::Instant) -> u128 {
    epoch.elapsed().as_nanos()
}

/// `SystemTime::elapsed` measures the time since the Unix epoch, here in whole
/// seconds and zero when the clock stands before the epoch. Nothing is claimed of
/// the measure.
#[verifier::external_body]
pub(crate) fn unix_now() -> u64 {
    std::time::UNIX_EPOCH.elapsed().unwrap_or_default().as_secs()
}

/// The time between `since` and `now`, zero if `since` is still to come.
pub open spec fn elapsed(since: u128, now: u128) -> int {
    if now >= since {
        now - since
    } else {
        0
    }
}

/// The time between `since` and `now`, zero if `since` is still to come.
pub fn time_between(since: u128, now: u128) -> (d: u128)
    ensures
        d == elapsed(since, now),
{
    if now >= since {
        now - since
    } else {
        0
    }
}

/// Time that has passed is counted, and time that has not is none: from a moment to itself
/// nothing, to a later one the difference, to an earlier one nothing.
pub proof fn law_time_does_not_run_backwards(since: u128, more: u128)
    requires
        since + more <= u128::MAX,
    ensures
        elapsed(since, (since + more) as u128) == more,
        elapsed((since + more) as u128, since) == 0,
{
}

} // verus!
