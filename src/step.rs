use vstd::prelude::*;

use crate::cancel::CancelHandle;

verus! {

/// What one execution of a step asks of the loop around it.
#[derive(Clone, Copy, Debug, PartialEq, Eq, Structural)]
pub enum LoopStep {
    /// Run the step again.
    Next,
    /// Stop the loop; it has succeeded.
    Break,
}

/// What a loop does after a step: go on, or stop with its terminal value.
#[derive(Debug)]
pub enum Flow<E> {
    Continue,
    Finish(Result<(), E>),
}

/// A step outcome ends the loop unless it is `Ok(Next)`.
pub open spec fn is_terminal<E>(o: Result<LoopStep, E>) -> bool {
    match o {
        Ok(LoopStep::Next) => false,
        _ => true,
    }
}

/// The loop's terminal value carried by a step outcome.
pub open spec fn outcome_result<E>(o: Result<LoopStep, E>) -> Result<(), E> {
    match o {
        Ok(_) => Ok(()),
        Err(e) => Err(e),
    }
}

/// The loop's decision after a step with outcome `o`.
pub open spec fn flow_of<E>(o: Result<LoopStep, E>) -> Flow<E> {
    if is_terminal(o) {
        Flow::Finish(outcome_result(o))
    } else {
        Flow::Continue
    }
}

/// Decides what the loop does after a step that returned `o`.
pub fn after_step<E>(o: Result<LoopStep, E>) -> (f: Flow<E>)
    ensures
        f == flow_of(o),
{
    match o {
        Ok(LoopStep::Next) => Flow::Continue,
        Ok(LoopStep::Break) => Flow::Finish(Ok(())),
        Err(e) => Flow::Finish(Err(e)),
    }
}

/// A unit of repeatable, possibly failing work.
pub trait Cancellable {
    type Error;

    /// Every outcome that `execute` has returned so far, oldest first.
    ///
    /// An implementation proved against `execute`'s contract must define it,
    /// as a ghost history of its own: the default below contradicts that
    /// contract, so no implementation that keeps it can be proved. The
    /// default exists because a trait's spec function is still a required
    /// method once compiled, and implementations written in plain Rust,
    /// which Verus never checks, could not otherwise be written at all.
    /// Generic code, such as the turns below, never sees this body.
    closed spec fn outcomes(&self) -> Seq<Result<LoopStep, Self::Error>> {
        Seq::empty()
    }

    /// Performs one unit of work.
    fn execute(&mut self) -> (r: Result<LoopStep, Self::Error>)
        ensures
            final(self).outcomes() == old(self).outcomes().push(r),
    ;

    /// One turn of the blocking run loop: executes once and decides whether
    /// the loop goes on or stops with the returned terminal value.
    fn step(&mut self) -> (f: Flow<Self::Error>)
        ensures
            final(self).outcomes().len() == old(self).outcomes().len() + 1,
            final(self).outcomes().drop_last() == old(self).outcomes(),
            f == flow_of(final(self).outcomes().last()),
    {
        let o = self.execute();
        proof {
            assert(self.outcomes().drop_last() =~= old(self).outcomes());
        }
        after_step(o)
    }

    /// One turn of the worker loop for a flag check that read `running`:
    /// when it read running, executes once and decides as `step` does; when
    /// it read stopped, does not execute and stops with success.
    fn step_if(&mut self, running: bool) -> (f: Flow<Self::Error>)
        ensures
            !running ==> final(self).outcomes() == old(self).outcomes()
                && f == Flow::<Self::Error>::Finish(Ok(())),
            running ==> final(self).outcomes().len() == old(self).outcomes().len() + 1
                && final(self).outcomes().drop_last() == old(self).outcomes()
                && f == flow_of(final(self).outcomes().last()),
    {
        if running {
            self.step()
        } else {
            Flow::Finish(Ok(()))
        }
    }

    /// One turn of the worker loop: reads `cancel`'s flag once and acts as
    /// `step_if` does on what it read. Another thread may clear the flag at
    /// any time, so the read is not known here: the turn either stops with
    /// success without executing, or executes exactly once.
    fn step_unless_cancelled(&mut self, cancel: &CancelHandle) -> (f: Flow<Self::Error>)
        ensures
            (final(self).outcomes() == old(self).outcomes() && f == Flow::<Self::Error>::Finish(Ok(())))
            || (final(self).outcomes().len() == old(self).outcomes().len() + 1
                && final(self).outcomes().drop_last() == old(self).outcomes()
                && f == flow_of(final(self).outcomes().last())),
    {
        let running = cancel.is_running();
        self.step_if(running)
    }
}

} // verus!
