//! The driver that steps a computation against a deadline.

use crate::clock::duration_nanos;
use crate::interruptable::{partial_view, Interruptable, Status};
use crate::model::{
    completion, continues_at, halts_at, lemma_completion_within_budget,
    lemma_success_is_completion, lemma_zero_budget_takes_one_step, outcome_at, state_after,
};
use crate::timeout::{Timeout, TimeoutError};
use std::time::{Duration, Instant};
use vstd::prelude::*;

verus! {

/// The view of what a run returns.
pub open spec fn outcome_view<T: View>(outcome: Result<T, TimeoutError<T>>) -> Result<
    T::V,
    Timeout<T::V>,
> {
    match outcome {
        Ok(output) => Ok(output@),
        Err(error) => Err(error@),
    }
}

/// Used to run an `Interruptable` until done or the deadline is missed.
#[verifier::reject_recursive_types(T)]
pub struct Executor<I, T> where I: Interruptable<Output = T>, T: View {
    func: I,
    deadline: Duration,
}

impl<I, T> Executor<I, T> where I: Interruptable<Output = T>, T: View {
    /// The abstract state of the computation that the executor owns.
    pub closed spec fn state(&self) -> I::State {
        self.func.state()
    }

    /// The budget of a run in nanoseconds.
    pub closed spec fn budget(&self) -> nat {
        duration_nanos(self.deadline)
    }

    /// Whether the computation is in a state that its steps can start from.
    pub closed spec fn inv(&self) -> bool {
        self.func.inv()
    }

    /// Hands a computation and the time it may take to a new executor.
    pub fn new(func: I, deadline: Duration) -> (executor: Self)
        requires
            func.inv(),
        ensures
            executor.inv(),
            executor.state() == func.state(),
            executor.budget() == duration_nanos(deadline),
    {
        Self { func, deadline }
    }

    /// Decides whether a run whose clock shows `elapsed` has missed the
    /// deadline, and if so, puts together the error that the run returns.
    pub fn check_deadline(&self, elapsed: Duration) -> (missed: Option<TimeoutError<T>>)
        requires
            self.inv(),
        ensures
            missed is Some <==> duration_nanos(elapsed) >= self.budget(),
            missed is Some ==> missed->0@ == (Timeout {
                overrun: (duration_nanos(elapsed) - self.budget()) as nat,
                partial: I::partial_of(self.state()),
            }),
    {
        match elapsed.checked_sub(self.deadline) {
            Some(late_by) => Some(TimeoutError::new(late_by, self.func.partial_result())),
            None => None,
        }
    }

    /// What is known of the step at which a run has halted, before the clock
    /// is asked: it is the first step where the first step is done, and
    /// where the budget is zero.
    proof fn lemma_halted(c: I::State, budget: nat, readings: Seq<nat>, k: nat)
        requires
            halts_at::<I>(c, budget, readings, k),
        ensures
            I::status_of(c) is Done ==> k == 0,
            budget == 0 ==> k == 0,
            state_after::<I>(c, 1) == I::next(c),
            outcome_at::<I>(c, budget, readings, k) matches Ok(output) ==> completion::<I>(c)
                == Some(output),
    {
        if outcome_at::<I>(c, budget, readings, k) is Ok {
            lemma_success_is_completion::<I>(c, budget, readings, k);
        }
        if I::status_of(c) is Done {
            lemma_completion_within_budget::<I>(c, budget, readings, 0);
        }
        if budget == 0 {
            lemma_zero_budget_takes_one_step::<I>(c, readings, k);
        }
        reveal_with_fuel(state_after, 2);
    }

    /// Steps the computation until it is done or the deadline is missed.
    ///
    /// The clock is started before the first step and read after every step
    /// that reports `Pending`, never before one: a step that reports `Done`
    /// ends the run with its output however late it is. What the clock shows
    /// is not known beforehand, so the contract speaks of the readings that
    /// there were: the run halts where `halts_at` says it does for them, and
    /// returns what `outcome_at` says.
    pub fn run(&mut self) -> (outcome: Result<T, TimeoutError<T>>)
        requires
            old(self).inv(),
        ensures
            final(self).inv(),
            final(self).budget() == old(self).budget(),
            exists|readings: Seq<nat>, k: nat|
                {
                    &&& #[trigger] halts_at::<I>(old(self).state(), old(self).budget(), readings, k)
                    &&& outcome_view(outcome) == outcome_at::<I>(
                        old(self).state(),
                        old(self).budget(),
                        readings,
                        k,
                    )
                    &&& final(self).state() == state_after::<I>(old(self).state(), k + 1)
                },
            outcome matches Ok(output) ==> completion::<I>(old(self).state()) == Some(output@),
            outcome matches Err(error) ==> error@.partial == I::partial_of(final(self).state()),
            I::status_of(old(self).state()) is Done ==> outcome is Ok,
            old(self).budget() == 0 ==> final(self).state() == I::next(old(self).state()),
    {
        let ghost start_state = self.func.state();
        let ghost budget = duration_nanos(self.deadline);
        let ghost mut readings: Seq<nat> = Seq::empty();
        let start: Instant = Instant::now();
        loop
            invariant
                start_state == old(self).state(),
                budget == old(self).budget(),
                self.func.inv(),
                self.budget() == budget,
                self.func.state() == state_after::<I>(start_state, readings.len()),
                forall|j: nat|
                    j < readings.len() ==> #[trigger] continues_at::<I>(
                        start_state,
                        budget,
                        readings,
                        j,
                    ),
            decreases I::remaining(self.func.state()),
        {
            let ghost k = readings.len();
            match self.func.poll() {
                Status::Done(output) => {
                    proof {
                        assert(halts_at::<I>(start_state, budget, readings, k));
                        Self::lemma_halted(start_state, budget, readings, k);
                    }
                    return Ok(output);
                },
                Status::Pending => {
                    let current_time: Duration = start.elapsed();
                    let ghost before = readings;
                    proof {
                        readings = readings.push(duration_nanos(current_time));
                        assert forall|j: nat| j < k implies #[trigger] continues_at::<I>(
                            start_state,
                            budget,
                            readings,
                            j,
                        ) by {
                            assert(continues_at::<I>(start_state, budget, before, j));
                        }
                    }
                    match self.check_deadline(current_time) {
                        Some(error) => {
                            proof {
                                assert(halts_at::<I>(start_state, budget, readings, k));
                                Self::lemma_halted(start_state, budget, readings, k);
                            }
                            return Err(error);
                        },
                        None => {
                            assert(continues_at::<I>(start_state, budget, readings, k));
                        },
                    }
                },
            }
        }
    }

    /// Returns the partial result of the computation as it stands.
    pub fn partial_result(&self) -> (partial: Option<T>)
        requires
            self.inv(),
        ensures
            partial_view(partial) == I::partial_of(self.state()),
    {
        self.func.partial_result()
    }
}

/// Runs an `Interruptable` in an `Executor` made for it: a shorthand for
/// `Executor::new` followed by `run`.
pub fn exec_interruptable<I, T>(func: I, duration: Duration) -> (outcome: Result<
    T,
    TimeoutError<T>,
>) where I: Interruptable<Output = T>, T: View
    requires
        func.inv(),
    ensures
        exists|readings: Seq<nat>, k: nat|
            {
                &&& #[trigger] halts_at::<I>(func.state(), duration_nanos(duration), readings, k)
                &&& outcome_view(outcome) == outcome_at::<I>(
                    func.state(),
                    duration_nanos(duration),
                    readings,
                    k,
                )
            },
        outcome matches Ok(output) ==> completion::<I>(func.state()) == Some(output@),
        I::status_of(func.state()) is Done ==> outcome is Ok,
{
    let mut executor = Executor::new(func, duration);
    executor.run()
}

} // verus!
