//! The wall clock that bounds a search.

use std::time::Duration;
use std::time::Instant;
use vstd::prelude::*;

verus! {

#[verifier::external_type_specification]
#[verifier::external_body]
pub struct ExInstant(Instant);

/// `Instant::now`: the present reading of the monotonic clock. Nothing is
/// claimed of it.
#[verifier::external_body]
pub(crate) fn now() -> Instant {
    Instant::now()
}

/// `Instant::elapsed`: the time gone by since `start` was read. Nothing is
/// claimed of it.
#[verifier::external_body]
pub(crate) fn elapsed(start: &Instant) -> Duration {
    start.elapsed()
}

/// The comparison `>` of two `Duration`s. Nothing is claimed of it.
#[verifier::external_body]
pub(crate) fn longer(span: &Duration, limit: &Duration) -> bool {
    span > limit
}

/// The span of time that `Duration::from_secs` makes of a number of seconds.
pub uninterp spec fn whole_seconds(secs: u64) -> Duration;

/// `Duration::from_secs`: a span of so many whole seconds. The span depends
/// on the number alone; it is named, since a `Duration` shows nothing of
/// what it holds.
#[verifier::external_body]
pub(crate) fn seconds(secs: u64) -> (span: Duration)
    ensures
        span == whole_seconds(secs),
{
    Duration::from_secs(secs)
}

/// Whether more time than the budget allows has gone by since `start`.
/// Without a budget the time never runs out.
pub(crate) fn expired(start: &Instant, budget: &Option<Duration>) -> (out: bool)
    ensures
        budget is None ==> !out,
{
    match budget {
        Some(limit) => {
            let span = elapsed(start);
            longer(&span, limit)
        },
        None => false,
    }
}

} // verus!
