use vstd::prelude::*;

use crate::cancel::CancelHandle;
use crate::step::{flow_of, is_terminal, outcome_result, Flow, LoopStep};

verus! {

/// The outcomes that a run loop sees when the executor would return `script`
/// call by call: everything up to and including the first terminal outcome.
/// It models repeating `step` until it returns `Finish`; the repetition itself
/// is the caller's, and `lemma_run_trace_turn` shows each turn of this model
/// is what `step`'s contract gives.
pub open spec fn run_trace<E>(script: Seq<Result<LoopStep, E>>) -> Seq<Result<LoopStep, E>>
    decreases script.len(),
{
    if script.len() == 0 {
        seq![]
    } else if is_terminal(script[0]) {
        seq![script[0]]
    } else {
        seq![script[0]] + run_trace(script.skip(1))
    }
}

/// How many steps a worker loop executes when its flag checks read `reads`
/// and the executor would return `script`: it stops before a step at the
/// first check that reads `false`, and after the first terminal outcome.
/// It models repeating `step_if` on successive flag reads until it returns
/// `Finish`; the repetition itself is the caller's, and `lemma_worker_turn`
/// shows each turn of this model is what `step_if`'s contract gives.
pub open spec fn worker_steps<E>(reads: Seq<bool>, script: Seq<Result<LoopStep, E>>) -> nat
    decreases reads.len(),
{
    if reads.len() == 0 || script.len() == 0 || !reads[0] {
        0
    } else if is_terminal(script[0]) {
        1
    } else {
        1 + worker_steps(reads.skip(1), script.skip(1))
    }
}

/// The terminal value of that worker loop: the outcome of its last step when
/// that one was terminal, success when a cleared flag stopped it.
pub open spec fn worker_result<E>(reads: Seq<bool>, script: Seq<Result<LoopStep, E>>) -> Result<(), E> {
    let n = worker_steps(reads, script);
    if n > 0 && is_terminal(script[n - 1]) {
        outcome_result(script[n - 1])
    } else {
        Ok(())
    }
}

proof fn lemma_run_trace_stops_at<E>(script: Seq<Result<LoopStep, E>>, k: nat)
    requires
        k < script.len(),
        is_terminal(script[k as int]),
        forall|i: int| 0 <= i < k ==> script[i] == Ok::<LoopStep, E>(LoopStep::Next),
    ensures
        run_trace(script) == script.take((k + 1) as int),
    decreases k,
{
    if k == 0 {
        assert(run_trace(script) =~= script.take(1));
    } else {
        let rest = script.skip(1);
        assert forall|i: int| 0 <= i < k - 1 implies rest[i] == Ok::<LoopStep, E>(LoopStep::Next) by {
            assert(script[i + 1] == Ok::<LoopStep, E>(LoopStep::Next));
        }
        lemma_run_trace_stops_at(rest, (k - 1) as nat);
        assert(run_trace(script) =~= script.take((k + 1) as int));
    }
}

/// When the executor returns `Next` on its first `n - 1` calls and `Break`
/// on call `n`, the run loop executes exactly `n` times, every step but the
/// last lets it go on, and it finishes with success.
pub proof fn lemma_run_breaks_after_n<E>(script: Seq<Result<LoopStep, E>>, n: nat)
    requires
        1 <= n <= script.len(),
        forall|i: int| 0 <= i < n - 1 ==> script[i] == Ok::<LoopStep, E>(LoopStep::Next),
        script[n - 1] == Ok::<LoopStep, E>(LoopStep::Break),
    ensures
        run_trace(script).len() == n,
        forall|i: int| 0 <= i < n - 1 ==> flow_of(#[trigger] run_trace(script)[i]) == Flow::<E>::Continue,
        flow_of(run_trace(script)[n - 1]) == Flow::<E>::Finish(Ok(())),
{
    lemma_run_trace_stops_at(script, (n - 1) as nat);
}

/// When the executor returns `Next` on its first `k - 1` calls and the error
/// `e` on call `k`, the run loop executes exactly `k` times, so never a
/// `k + 1`-th time, and finishes with that very error.
pub proof fn lemma_run_fails_on_k<E>(script: Seq<Result<LoopStep, E>>, k: nat, e: E)
    requires
        1 <= k <= script.len(),
        forall|i: int| 0 <= i < k - 1 ==> script[i] == Ok::<LoopStep, E>(LoopStep::Next),
        script[k - 1] == Err::<LoopStep, E>(e),
    ensures
        run_trace(script).len() == k,
        forall|i: int| 0 <= i < k - 1 ==> flow_of(#[trigger] run_trace(script)[i]) == Flow::<E>::Continue,
        flow_of(run_trace(script)[k - 1]) == Flow::<E>::Finish(Err(e)),
{
    lemma_run_trace_stops_at(script, (k - 1) as nat);
}

proof fn lemma_worker_steps_bounded<E>(reads: Seq<bool>, script: Seq<Result<LoopStep, E>>, j: nat)
    requires
        j < reads.len(),
        !reads[j as int],
    ensures
        worker_steps(reads, script) <= j,
        worker_steps(reads, script) <= script.len(),
    decreases j,
{
    if j > 0 && script.len() > 0 && reads[0] && !is_terminal(script[0]) {
        lemma_worker_steps_bounded(reads.skip(1), script.skip(1), (j - 1) as nat);
    }
}

/// In the worker model: once the flag reads cleared at check `j` and after,
/// however many cancels cleared it, the worker executes at most `j` steps:
/// the step in flight when the flag was cleared completes and no further one
/// starts. When none of
/// those steps was terminal, the worker finishes with success.
pub proof fn lemma_worker_stops_after_cancel<E>(reads: Seq<bool>, script: Seq<Result<LoopStep, E>>, j: nat)
    requires
        j < reads.len(),
        forall|k: int| j <= k < reads.len() ==> !#[trigger] reads[k],
    ensures
        worker_steps(reads, script) <= j,
        (forall|i: int| 0 <= i < j && i < script.len() ==> script[i] == Ok::<LoopStep, E>(LoopStep::Next))
            ==> worker_result(reads, script) == Ok::<(), E>(()),
{
    assert(!reads[j as int]);
    lemma_worker_steps_bounded(reads, script, j);
}

/// A cleared flag stays cleared, so the worker's steps and terminal value
/// depend on its flag checks only up to the first one that reads cleared:
/// further cancels, which can only affect later checks, change nothing.
pub proof fn lemma_worker_ignores_later_cancels<E>(
    reads1: Seq<bool>,
    reads2: Seq<bool>,
    script: Seq<Result<LoopStep, E>>,
    j: nat,
)
    requires
        j < reads1.len(),
        j < reads2.len(),
        !reads1[j as int],
        !reads2[j as int],
        forall|i: int| 0 <= i < j ==> reads1[i] == reads2[i],
    ensures
        worker_steps(reads1, script) == worker_steps(reads2, script),
        worker_result(reads1, script) == worker_result(reads2, script),
    decreases j,
{
    if j > 0 && script.len() > 0 {
        assert(reads1[0] == reads2[0]);
        let r1 = reads1.skip(1);
        let r2 = reads2.skip(1);
        assert forall|i: int| 0 <= i < j - 1 implies r1[i] == r2[i] by {
            assert(reads1[i + 1] == reads2[i + 1]);
        }
        lemma_worker_ignores_later_cancels(r1, r2, script.skip(1), (j - 1) as nat);
    }
}

proof fn lemma_worker_runs_to<E>(reads: Seq<bool>, script: Seq<Result<LoopStep, E>>, k: nat)
    requires
        k < script.len(),
        k < reads.len(),
        is_terminal(script[k as int]),
        forall|i: int| 0 <= i < k ==> script[i] == Ok::<LoopStep, E>(LoopStep::Next),
        forall|i: int| 0 <= i <= k ==> #[trigger] reads[i],
    ensures
        worker_steps(reads, script) == k + 1,
    decreases k,
{
    if k > 0 {
        let rest = script.skip(1);
        let later = reads.skip(1);
        assert(reads[0]);
        assert(script[0] == Ok::<LoopStep, E>(LoopStep::Next));
        assert forall|i: int| 0 <= i < k - 1 implies rest[i] == Ok::<LoopStep, E>(LoopStep::Next) by {
            assert(script[i + 1] == Ok::<LoopStep, E>(LoopStep::Next));
        }
        assert forall|i: int| 0 <= i <= k - 1 implies #[trigger] later[i] by {
            assert(reads[i + 1]);
        }
        lemma_worker_runs_to(later, rest, (k - 1) as nat);
    } else {
        assert(reads[0]);
    }
}

/// A worker that is not cancelled before its `k`-th step, over an executor
/// that returns `Next` on its first `k - 1` calls and the error `e` on call
/// `k`, executes exactly `k` times and finishes with that very error.
pub proof fn lemma_worker_fails_on_k<E>(reads: Seq<bool>, script: Seq<Result<LoopStep, E>>, k: nat, e: E)
    requires
        1 <= k <= script.len(),
        k <= reads.len(),
        forall|i: int| 0 <= i < k ==> #[trigger] reads[i],
        forall|i: int| 0 <= i < k - 1 ==> script[i] == Ok::<LoopStep, E>(LoopStep::Next),
        script[k - 1] == Err::<LoopStep, E>(e),
    ensures
        worker_steps(reads, script) == k,
        worker_result(reads, script) == Err::<(), E>(e),
{
    lemma_worker_runs_to(reads, script, (k - 1) as nat);
}

/// Handles made by cloning, each from the one before (so each equal to it, as
/// `clone` ensures), are all equal to the first one. Equality here is of the
/// handles' values; that they share one allocation is what `Arc::clone`
/// does, and is not stated by it.
pub proof fn lemma_clones_share_flag(handles: Seq<CancelHandle>)
    requires
        forall|i: int| 0 < i < handles.len() ==> #[trigger] handles[i] == handles[i - 1],
    ensures
        forall|i: int| 0 <= i < handles.len() ==> #[trigger] handles[i] == handles[0],
    decreases handles.len(),
{
    if handles.len() > 1 {
        let front = handles.drop_last();
        assert forall|i: int| 0 < i < front.len() implies #[trigger] front[i] == front[i - 1] by {
            assert(handles[i] == handles[i - 1]);
        }
        lemma_clones_share_flag(front);
        assert forall|i: int| 0 <= i < handles.len() implies #[trigger] handles[i] == handles[0] by {
            if i < front.len() {
                assert(front[i] == front[0]);
            } else {
                assert(handles[i] == handles[i - 1]);
                assert(front[i - 1] == front[0]);
            }
        }
    }
}

proof fn lemma_worker_steps_le_len<E>(reads: Seq<bool>, script: Seq<Result<LoopStep, E>>)
    ensures
        worker_steps(reads, script) <= script.len(),
    decreases reads.len(),
{
    if reads.len() > 0 && script.len() > 0 && reads[0] && !is_terminal(script[0]) {
        lemma_worker_steps_le_len(reads.skip(1), script.skip(1));
    }
}

/// The run model, one turn at a time, is `step`: the first outcome is the
/// first one seen; when its flow is `Finish` the run ends there with that
/// value, and when it is `Continue` the rest of the run follows.
pub proof fn lemma_run_trace_turn<E>(script: Seq<Result<LoopStep, E>>)
    requires
        script.len() > 0,
    ensures
        run_trace(script).len() >= 1,
        run_trace(script)[0] == script[0],
        is_terminal(script[0]) ==> run_trace(script).len() == 1
            && flow_of(script[0]) == Flow::<E>::Finish(outcome_result(run_trace(script).last())),
        !is_terminal(script[0]) ==> flow_of(script[0]) == Flow::<E>::Continue
            && run_trace(script) == seq![script[0]] + run_trace(script.skip(1)),
{
}

/// The worker model, one turn at a time, is `step_if` on the flag read: a
/// check that reads stopped ends the worker with success and no step; one
/// that reads running executes once, and the outcome's flow either ends the
/// worker with that very value or hands over to the rest of the worker.
pub proof fn lemma_worker_turn<E>(reads: Seq<bool>, script: Seq<Result<LoopStep, E>>)
    requires
        reads.len() > 0,
        script.len() > 0,
    ensures
        !reads[0] ==> worker_steps(reads, script) == 0 && worker_result(reads, script) == Ok::<(), E>(()),
        reads[0] && is_terminal(script[0]) ==> worker_steps(reads, script) == 1
            && flow_of(script[0]) == Flow::<E>::Finish(worker_result(reads, script)),
        reads[0] && !is_terminal(script[0]) ==> flow_of(script[0]) == Flow::<E>::Continue
            && worker_steps(reads, script) == 1 + worker_steps(reads.skip(1), script.skip(1))
            && worker_result(reads, script) == worker_result(reads.skip(1), script.skip(1)),
{
    if reads[0] && !is_terminal(script[0]) {
        let rest = script.skip(1);
        lemma_worker_steps_le_len(reads.skip(1), rest);
        let m = worker_steps(reads.skip(1), rest);
        if m > 0 {
            assert(script[m as int] == rest[m - 1]);
        }
    }
}

} // verus!
