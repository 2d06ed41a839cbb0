//! The outcome of a run that missed its deadline.

use crate::clock::duration_nanos;
use crate::interruptable::partial_view;
use std::time::Duration;
use vstd::prelude::*;

verus! {

/// What a missed deadline amounts to: by how many nanoseconds it was missed,
/// and the best output that was on offer.
pub struct Timeout<V> {
    pub overrun: nat,
    pub partial: Option<V>,
}

/// Error if the deadline of an `Interruptable` is missed. Contains the amount
/// of time by which the deadline was missed as well as a partial result if one
/// exists.
#[derive(Debug)]
pub struct TimeoutError<P>(Duration, Option<P>);

impl<P> TimeoutError<P> {
    /// By how many nanoseconds the deadline was missed.
    pub closed spec fn overrun(&self) -> nat {
        duration_nanos(self.0)
    }

    /// The partial result that the error carries.
    pub closed spec fn partial(&self) -> Option<P> {
        self.1
    }

    /// Puts an overrun and a partial result together.
    pub(crate) fn new(late_by: Duration, partial: Option<P>) -> (error: Self)
        ensures
            error.overrun() == duration_nanos(late_by),
            error.partial() == partial,
    {
        TimeoutError(late_by, partial)
    }

    /// Returns the amount by which the deadline was missed.
    pub fn late_by(&self) -> (late: Duration)
        ensures
            duration_nanos(late) == self.overrun(),
    {
        self.0
    }

    /// Returns the partial result of the function that caused the error.
    pub fn partial_result(&self) -> (partial: Option<&P>)
        ensures
            partial is Some <==> self.partial() is Some,
            partial is Some ==> *partial->0 == self.partial()->0,
    {
        self.1.as_ref()
    }
}

impl<P: View> View for TimeoutError<P> {
    type V = Timeout<P::V>;

    open spec fn view(&self) -> Timeout<P::V> {
        Timeout { overrun: self.overrun(), partial: partial_view(self.partial()) }
    }
}

} // verus!
