//! The time a job takes.

use vstd::prelude::*;

verus! {

/// `std::time::Instant`: a moment of the clock. The library hands it on and
/// does not look inside.
#[verifier::external_type_specification]
#[verifier::external_body]
pub struct ExInstant(std::time::Instant);

/// `std::time::Instant::now`: the present moment of a clock that does not
/// run backwards. Nothing is claimed of the moment.
#[verifier::external_body]
pub(crate) fn clock_now() -> (now: std::time::Instant) {
    std::time::Instant::now()
}

/// `std::time::Instant::saturating_duration_since`, read in whole
/// milliseconds with `std::time::Duration::as_millis`: the time that passed
/// from `start` to `end`, and zero if `end` is the earlier moment. Nothing
/// is claimed of the number.
#[verifier::external_body]
pub(crate) fn millis_between(start: &std::time::Instant, end: &std::time::Instant) -> (ms: u128) {
    end.saturating_duration_since(*start).as_millis()
}

} // verus!
