use vstd::prelude::*;

verus! {

/// Relies on chrono's `Local::now` and `DateTime::timestamp_millis`:
/// the wall-clock time in milliseconds since the Unix epoch. Nothing is
/// promised of the clock's value; every caller's contract holds for
/// every reading.
#[verifier::external_body]
pub(crate) fn now_millis() -> i64 {
    chrono::Local::now().timestamp_millis()
}

/// Relies on chrono's `Local::now` and `DateTime::timestamp`: the
/// wall-clock time in whole seconds since the Unix epoch. Nothing is
/// promised of the clock's value.
#[verifier::external_body]
pub(crate) fn now_secs() -> i64 {
    chrono::Local::now().timestamp()
}

} // verus!
