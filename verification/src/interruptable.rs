//! The contract between a stepwise computation and whoever drives it.

use vstd::prelude::*;

verus! {

/// The status of an `Interruptable`: `Pending` while the computation is still
/// doing work, `Done` when it has finished.
pub enum Status<T> {
    /// The computation has finished with this output.
    Done(T),
    /// The computation needs more steps.
    Pending,
}

impl<T: View> View for Status<T> {
    type V = Status<T::V>;

    open spec fn view(&self) -> Status<T::V> {
        match self {
            Status::Done(output) => Status::Done(output@),
            Status::Pending => Status::Pending,
        }
    }
}

/// The view of an optional output.
pub open spec fn partial_view<T: View>(partial: Option<T>) -> Option<T::V> {
    match partial {
        Some(output) => Some(output@),
        None => None,
    }
}

/// An `Interruptable` wraps a computation that can be interrupted. No
/// preemption is possible: the computation gives up control of its own
/// accord, at the end of every call of `poll`.
///
/// What a computation does is fixed by a transition system over an abstract
/// state. The state decides what the next step reports (`status_of`), which
/// state that step leaves behind (`next`) and which partial result is on
/// offer (`partial_of`). A step must bring the computation closer to its
/// completion: whenever one reports `Pending`, `remaining` has gone down.
///
/// A type that states no transition system of its own gets the one written
/// out here, whose `inv` holds of no value: nothing is claimed of such a
/// computation, and nothing can be proved of a run of it.
pub trait Interruptable {
    /// The return type of the computation.
    type Output: View;

    /// The abstract state that the contracts speak of.
    type State;

    /// The abstract state of this computation.
    open spec fn state(&self) -> Self::State {
        arbitrary()
    }

    /// Whether the computation is in a state that its steps can start from.
    open spec fn inv(&self) -> bool {
        false
    }

    /// What a step taken in state `s` reports.
    open spec fn status_of(s: Self::State) -> Status<<Self::Output as View>::V> {
        Status::Pending
    }

    /// The state that a step taken in state `s` leaves behind.
    open spec fn next(s: Self::State) -> Self::State {
        s
    }

    /// The best output on offer in state `s`.
    open spec fn partial_of(s: Self::State) -> Option<<Self::Output as View>::V> {
        None
    }

    /// A bound on the number of steps from state `s` on that report
    /// `Pending`.
    open spec fn remaining(s: Self::State) -> nat {
        0
    }

    /// Performs one step and reports whether the computation has finished.
    fn poll(&mut self) -> (status: Status<Self::Output>)
        requires
            old(self).inv(),
        ensures
            final(self).inv(),
            status@ == Self::status_of(old(self).state()),
            final(self).state() == Self::next(old(self).state()),
            status is Pending ==> Self::remaining(final(self).state()) < Self::remaining(
                old(self).state(),
            ),
    ;

    /// Returns the partial result, if one is available. The computation
    /// stays as it is, and what is returned depends on its state alone: two
    /// calls with no step between them return the same.
    fn partial_result(&self) -> (partial: Option<Self::Output>)
        requires
            self.inv(),
        ensures
            partial_view(partial) == Self::partial_of(self.state()),
    ;
}

} // verus!
