use crate::model::Timestamp;
use chrono::Utc;
use vstd::prelude::*;

verus! {

/// One more than the greatest number of seconds that `now` can return: the
/// seconds of 2^31 days.
pub const CLOCK_SECS_END: i64 = 185_542_587_187_200;

/// The present instant.
///
/// Trusted: calls `chrono::Utc::now` and takes the instant apart with
/// `DateTime::timestamp` and `DateTime::timestamp_subsec_nanos`. `Utc::now`
/// reads the system clock as a time since the Unix epoch and panics where the
/// date does not fit its calendar, whose day numbers are `i32`: an instant
/// that it returns is not before the epoch, lies less than 2^31 days after
/// it, and has less than a second of nanoseconds.
#[verifier::external_body]
pub(crate) fn now() -> (at: Timestamp)
    ensures
        0 <= at.secs < CLOCK_SECS_END,
        at.nanos < 1_000_000_000,
{
    let at = Utc::now();
    Timestamp { secs: at.timestamp(), nanos: at.timestamp_subsec_nanos() }
}

} // verus!
