//! The monotonic clock and the arithmetic on time spans that the executor
//! needs. Everything in this module belongs to the standard library: the
//! contracts below are stated of it, not proved.

use std::time::{Duration, Instant};
use vstd::prelude::*;

verus! {

/// `std::time::Instant`, a reading of the monotonic clock, of which nothing
/// but its existence is known here.
#[verifier::external_type_specification]
#[verifier::external_body]
pub struct ExInstant(Instant);

/// The length of a time span in whole nanoseconds, as `Duration::as_nanos`
/// returns it.
pub uninterp spec fn duration_nanos(d: Duration) -> nat;

/// `Instant::now` reads the clock. Nothing is claimed of the instant read.
pub assume_specification[ Instant::now ]() -> (start: Instant)
;

/// `Instant::elapsed` returns the time that has passed since the instant.
/// The reading depends on the clock alone, so nothing is claimed of it.
pub assume_specification[ Instant::elapsed ](start: &Instant) -> (span: Duration)
;

/// `Duration::checked_sub` computes `span - other` and returns `None` where
/// the result would be negative: there is a difference exactly where `span`
/// is no shorter than `other`, and it is as long as `span` is longer.
pub assume_specification[ Duration::checked_sub ](span: Duration, other: Duration) -> (rest: Option<
    Duration,
>)
    ensures
        rest is Some <==> duration_nanos(span) >= duration_nanos(other),
        rest is Some ==> duration_nanos(rest->0) == duration_nanos(span) - duration_nanos(other),
;

} // verus!
