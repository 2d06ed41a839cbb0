//! What a timed run amounts to, as a function of the computation, the budget
//! and the readings of the clock.
//!
//! The executor polls the computation, and after every step that reports
//! `Pending` it reads the clock. Step `k` is the step taken after `k` earlier
//! ones, and `readings[k]` is the time in nanoseconds that the clock showed
//! after it. The run goes on past step `k` when that step is pending and its
//! reading is below the budget; it halts at the first step that is done or
//! read at or over the budget.

use crate::interruptable::{Interruptable, Status};
use crate::timeout::Timeout;
use vstd::prelude::*;

verus! {

/// The state of a computation that started in state `c` and took `k` steps.
pub open spec fn state_after<I: Interruptable>(c: I::State, k: nat) -> I::State
    decreases k,
{
    if k == 0 {
        c
    } else {
        I::next(state_after::<I>(c, (k - 1) as nat))
    }
}

/// What step `k` reports.
pub open spec fn status_at<I: Interruptable>(c: I::State, k: nat) -> Status<
    <I::Output as View>::V,
> {
    I::status_of(state_after::<I>(c, k))
}

/// The partial result on offer once `k` steps have been taken.
pub open spec fn partial_after<I: Interruptable>(c: I::State, k: nat) -> Option<
    <I::Output as View>::V,
> {
    I::partial_of(state_after::<I>(c, k))
}

/// Whether the computation finishes with step `n` and not before.
pub open spec fn completes_at<I: Interruptable>(c: I::State, n: nat) -> bool {
    &&& forall|j: nat| j < n ==> #[trigger] status_at::<I>(c, j) is Pending
    &&& status_at::<I>(c, n) is Done
}

/// The output that the computation yields when it is stepped to completion
/// with no clock involved, if it ever completes.
pub open spec fn completion<I: Interruptable>(c: I::State) -> Option<<I::Output as View>::V> {
    if exists|n: nat| completes_at::<I>(c, n) {
        Some(status_at::<I>(c, choose|n: nat| completes_at::<I>(c, n))->0)
    } else {
        None
    }
}

/// Whether a run goes on past step `j`: the step is pending, and the clock
/// read after it shows less than the budget.
pub open spec fn continues_at<I: Interruptable>(
    c: I::State,
    budget: nat,
    readings: Seq<nat>,
    j: nat,
) -> bool {
    &&& status_at::<I>(c, j) is Pending
    &&& j < readings.len()
    &&& readings[j as int] < budget
}

/// Whether a run halts with step `k`: it goes on past every earlier step, and
/// step `k` is done or read at or over the budget.
pub open spec fn halts_at<I: Interruptable>(
    c: I::State,
    budget: nat,
    readings: Seq<nat>,
    k: nat,
) -> bool {
    &&& forall|j: nat| j < k ==> #[trigger] continues_at::<I>(c, budget, readings, j)
    &&& status_at::<I>(c, k) is Done || (k < readings.len() && readings[k as int] >= budget)
}

/// What a run that halts with step `k` returns: the output of that step if
/// it is done, else the overrun read after it and the partial result that
/// the step left behind.
pub open spec fn outcome_at<I: Interruptable>(
    c: I::State,
    budget: nat,
    readings: Seq<nat>,
    k: nat,
) -> Result<<I::Output as View>::V, Timeout<<I::Output as View>::V>> {
    match status_at::<I>(c, k) {
        Status::Done(output) => Ok(output),
        Status::Pending => Err(
            Timeout {
                overrun: (readings[k as int] - budget) as nat,
                partial: partial_after::<I>(c, k + 1),
            },
        ),
    }
}

/// A run halts with one step only: the step at which a run halts is fixed by
/// the computation, the budget and the readings.
pub proof fn lemma_halt_unique<I: Interruptable>(
    c: I::State,
    budget: nat,
    readings: Seq<nat>,
    k1: nat,
    k2: nat,
)
    requires
        halts_at::<I>(c, budget, readings, k1),
        halts_at::<I>(c, budget, readings, k2),
    ensures
        k1 == k2,
{
    if k1 < k2 {
        assert(continues_at::<I>(c, budget, readings, k1));
    }
    if k2 < k1 {
        assert(continues_at::<I>(c, budget, readings, k2));
    }
}

/// A computation completes with one step only, so the output that it yields
/// when stepped to completion is fixed by its state.
pub proof fn lemma_completion_unique<I: Interruptable>(c: I::State, n1: nat, n2: nat)
    requires
        completes_at::<I>(c, n1),
        completes_at::<I>(c, n2),
    ensures
        n1 == n2,
        completion::<I>(c) == Some(status_at::<I>(c, n1)->0),
{
    if n1 < n2 {
        assert(status_at::<I>(c, n1) is Pending);
    }
    if n2 < n1 {
        assert(status_at::<I>(c, n2) is Pending);
    }
    let chosen = choose|n: nat| completes_at::<I>(c, n);
    if chosen < n1 {
        assert(status_at::<I>(c, chosen) is Pending);
    }
    if n1 < chosen {
        assert(status_at::<I>(c, n1) is Pending);
    }
}

/// A computation that completes while every reading of the clock is still
/// below the budget is run to its end: the run halts with the step that
/// completes it and returns the output of that step, which is the output
/// that stepping it to completion without any clock yields.
pub proof fn lemma_completion_within_budget<I: Interruptable>(
    c: I::State,
    budget: nat,
    readings: Seq<nat>,
    n: nat,
)
    requires
        completes_at::<I>(c, n),
        forall|j: nat| j < n ==> j < readings.len() && #[trigger] readings[j as int] < budget,
    ensures
        halts_at::<I>(c, budget, readings, n),
        forall|k: nat| #[trigger] halts_at::<I>(c, budget, readings, k) ==> k == n,
        completion::<I>(c) is Some,
        outcome_at::<I>(c, budget, readings, n) == Ok::<
            <I::Output as View>::V,
            Timeout<<I::Output as View>::V>,
        >(completion::<I>(c)->0),
{
    lemma_completion_unique::<I>(c, n, n);
    assert forall|j: nat| j < n implies #[trigger] continues_at::<I>(c, budget, readings, j) by {
        assert(status_at::<I>(c, j) is Pending);
        assert(readings[j as int] < budget);
    }
    assert forall|k: nat| #[trigger] halts_at::<I>(c, budget, readings, k) implies k == n by {
        lemma_halt_unique::<I>(c, budget, readings, k, n);
    }
}

/// Whatever the clock showed, a run that returns an output has stepped the
/// computation to its completion and returns the output of the completing
/// step.
pub proof fn lemma_success_is_completion<I: Interruptable>(
    c: I::State,
    budget: nat,
    readings: Seq<nat>,
    k: nat,
)
    requires
        halts_at::<I>(c, budget, readings, k),
        outcome_at::<I>(c, budget, readings, k) is Ok,
    ensures
        completes_at::<I>(c, k),
        completion::<I>(c) is Some,
        outcome_at::<I>(c, budget, readings, k) == Ok::<
            <I::Output as View>::V,
            Timeout<<I::Output as View>::V>,
        >(completion::<I>(c)->0),
{
    assert forall|j: nat| j < k implies #[trigger] status_at::<I>(c, j) is Pending by {
        assert(continues_at::<I>(c, budget, readings, j));
    }
    lemma_completion_unique::<I>(c, k, k);
}

/// A computation that is still pending when the clock first shows the budget
/// or more, as one that never completes is, makes the run time out there: the
/// overrun is what the clock showed over the budget, and the partial result
/// is the one on offer right after the last step taken.
pub proof fn lemma_timeout_after_last_step<I: Interruptable>(
    c: I::State,
    budget: nat,
    readings: Seq<nat>,
    k: nat,
)
    requires
        forall|j: nat| j <= k ==> #[trigger] status_at::<I>(c, j) is Pending,
        forall|j: nat| j < k ==> j < readings.len() && #[trigger] readings[j as int] < budget,
        k < readings.len(),
        readings[k as int] >= budget,
    ensures
        halts_at::<I>(c, budget, readings, k),
        forall|h: nat| #[trigger] halts_at::<I>(c, budget, readings, h) ==> h == k,
        outcome_at::<I>(c, budget, readings, k) == Err::<
            <I::Output as View>::V,
            Timeout<<I::Output as View>::V>,
        >(
            Timeout {
                overrun: (readings[k as int] - budget) as nat,
                partial: partial_after::<I>(c, k + 1),
            },
        ),
{
    assert forall|j: nat| j < k implies #[trigger] continues_at::<I>(c, budget, readings, j) by {
        assert(status_at::<I>(c, j) is Pending);
        assert(readings[j as int] < budget);
    }
    assert(status_at::<I>(c, k) is Pending);
    assert forall|h: nat| #[trigger] halts_at::<I>(c, budget, readings, h) implies h == k by {
        lemma_halt_unique::<I>(c, budget, readings, h, k);
    }
}

/// With the budget held fixed, slower steps make the overrun larger: where a
/// run times out after step `k`, a run of the same computation whose clock
/// shows at least as much after every step, and that still gets as far as
/// step `k`, times out there too, with the same partial result and an overrun
/// that is no smaller, and larger where the last reading is larger.
pub proof fn lemma_overrun_grows_with_delay<I: Interruptable>(
    c: I::State,
    budget: nat,
    readings: Seq<nat>,
    slower: Seq<nat>,
    k: nat,
)
    requires
        halts_at::<I>(c, budget, readings, k),
        outcome_at::<I>(c, budget, readings, k) is Err,
        slower.len() == readings.len(),
        forall|j: nat| j <= k ==> readings[j as int] <= #[trigger] slower[j as int],
        forall|j: nat| j < k ==> #[trigger] slower[j as int] < budget,
    ensures
        halts_at::<I>(c, budget, slower, k),
        outcome_at::<I>(c, budget, slower, k) is Err,
        outcome_at::<I>(c, budget, slower, k)->Err_0.partial == outcome_at::<I>(
            c,
            budget,
            readings,
            k,
        )->Err_0.partial,
        outcome_at::<I>(c, budget, slower, k)->Err_0.overrun >= outcome_at::<I>(
            c,
            budget,
            readings,
            k,
        )->Err_0.overrun,
        readings[k as int] < slower[k as int] ==> outcome_at::<I>(
            c,
            budget,
            slower,
            k,
        )->Err_0.overrun > outcome_at::<I>(c, budget, readings, k)->Err_0.overrun,
{
    assert forall|j: nat| j < k implies #[trigger] continues_at::<I>(c, budget, slower, j) by {
        assert(continues_at::<I>(c, budget, readings, j));
        assert(slower[j as int] < budget);
    }
    assert(readings[k as int] <= slower[k as int]);
}

/// With a budget of zero a run still takes one step, and no more: it halts
/// with the first step. If that step is pending, the run times out with the
/// partial result that the step left behind.
pub proof fn lemma_zero_budget_takes_one_step<I: Interruptable>(
    c: I::State,
    readings: Seq<nat>,
    k: nat,
)
    requires
        halts_at::<I>(c, 0, readings, k),
    ensures
        k == 0,
        status_at::<I>(c, 0) is Pending ==> outcome_at::<I>(c, 0, readings, k) == Err::<
            <I::Output as View>::V,
            Timeout<<I::Output as View>::V>,
        >(Timeout { overrun: readings[0], partial: I::partial_of(I::next(c)) }),
{
    if k > 0 {
        assert(continues_at::<I>(c, 0, readings, 0));
    }
    reveal_with_fuel(state_after, 2);
}

} // verus!
