//! The wall clock, read through `chrono`.
//!
//! Nothing in the library depends on what the clock says: an instant is
//! carried from the reading to the subtraction, and the duration from there to
//! the result, and neither is inspected.

use vstd::prelude::*;

verus! {

#[verifier::external_type_specification]
#[verifier::external_body]
pub struct ExNaiveDateTime(chrono::NaiveDateTime);

#[verifier::external_type_specification]
#[verifier::external_body]
pub struct ExTimeDelta(chrono::TimeDelta);

/// The duration from `start` to `end`, as `chrono` subtracts two instants. It
/// is negative where `end` lies before `start`.
pub uninterp spec fn span_between(
    start: chrono::NaiveDateTime,
    end: chrono::NaiveDateTime,
) -> chrono::TimeDelta;

/// Reads the system clock with `std::time::SystemTime::now`, converts the
/// reading with `chrono`'s `From<SystemTime> for DateTime<Utc>`, and drops the
/// zone, which is UTC. The conversion takes a reading on either side of 1970,
/// within the years that `chrono` can hold. The instant depends on the
/// machine's clock, so the contract claims nothing of it.
#[verifier::external_body]
pub(crate) fn now() -> (instant: chrono::NaiveDateTime) {
    chrono::DateTime::<chrono::Utc>::from(std::time::SystemTime::now()).naive_utc()
}

/// Calls `chrono`'s subtraction of one `NaiveDateTime` from another, which is
/// `NaiveDateTime::signed_duration_since` and is in range for every pair of
/// instants. The contract gives the result its name and claims nothing more
/// of it.
#[verifier::external_body]
pub(crate) fn elapsed_between(start: chrono::NaiveDateTime, end: chrono::NaiveDateTime) -> (elapsed:
    chrono::TimeDelta)
    ensures
        elapsed == span_between(start, end),
{
    end - start
}

} // verus!
