//! The wall clock.

use vstd::prelude::*;

verus! {

/// The time now, in milliseconds since the Unix epoch: the system time
/// as `std::time::SystemTime::now` reads it, turned into a date by chrono's
/// `From<SystemTime> for DateTime<Utc>` and counted by
/// `DateTime::timestamp_millis`. A clock that stands before 1970 gives a
/// negative count. The value comes from the system clock, which may stand
/// anywhere and may be set back between two calls, so nothing is claimed of
/// it. The conversion holds for every time within chrono's range of dates,
/// some 262,000 years to either side of the epoch.
#[verifier::external_body]
pub(crate) fn now_millis() -> (millis: i64) {
    chrono::DateTime::<chrono::Utc>::from(std::time::SystemTime::now()).timestamp_millis()
}

} // verus!
