use vstd::prelude::*;

verus! {

/// Relies on chrono's `Local::now` for the local wall-clock time, read through `naive_local`,
/// `and_utc` and `timestamp_millis` as milliseconds since 1970-01-01 00:00 of that clock.
/// Nothing is promised of the value: the clock may stand still or jump back. chrono panics if
/// the system clock reads before 1970, or if the local time falls outside its date range.
#[verifier::external_body]
pub(crate) fn local_now_millis() -> i64 {
    chrono::Local::now().naive_local().and_utc().timestamp_millis()
}

#[verifier::external_type_specification]
#[verifier::external_body]
pub struct ExInstant(std::time::Instant);

/// Relies on `Instant::now`: a reading of the monotonic clock, which never goes back. Nothing
/// is promised of the value itself.
#[verifier::external_body]
pub(crate) fn monotonic_now() -> std::time::Instant {
    std::time::Instant::now()
}

/// Relies on `Instant::elapsed`: the monotonic time passed since `start`, read in whole
/// milliseconds. Nothing is promised of the value: it depends on when it is read.
#[verifier::external_body]
pub(crate) fn millis_since(start: &std::time::Instant) -> i64 {
    start.elapsed().as_millis() as i64
}

} // verus!
