//! The wall clock, read through `std::time`.

use vstd::prelude::*;
use std::time::{Duration, SystemTime, UNIX_EPOCH};

verus! {

#[verifier::external_type_specification]
#[verifier::external_body]
pub struct ExSystemTime(std::time::SystemTime);

/// Reads the wall clock.
///
/// Trusted: calls `SystemTime::now`. Nothing is claimed of the moment read.
#[verifier::external_body]
pub(crate) fn now() -> SystemTime {
    SystemTime::now()
}

/// The time from the Unix epoch to `moment`, or `None` where `moment` lies
/// before the epoch.
///
/// Trusted: calls `SystemTime::duration_since` with `UNIX_EPOCH`. Nothing is
/// claimed of the span.
#[verifier::external_body]
pub(crate) fn since_epoch(moment: &SystemTime) -> Option<Duration> {
    match moment.duration_since(UNIX_EPOCH) {
        Ok(span) => Some(span),
        Err(_) => None,
    }
}

/// The whole seconds in `span`.
///
/// Trusted: calls `Duration::as_secs`. Nothing is claimed of the count.
#[verifier::external_body]
pub(crate) fn whole_seconds(span: &Duration) -> u64 {
    span.as_secs()
}

} // verus!
