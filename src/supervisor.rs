use vstd::prelude::*;

use crate::runner::{accepts, step, ActionView, EventView, RunError, RunnerView};

verus! {

/// How long the supervisor waits after a failed run before it starts over.
pub const BACKOFF_MS: u64 = 5000;

/// The two states of the supervisor.
#[derive(Clone, Copy, Debug, PartialEq, Eq, Structural)]
pub enum Phase {
    /// A pipeline run is going on.
    Running,
    /// A run failed; the supervisor waits before starting over.
    Recovering,
}

/// What the supervisor does after a run failed: report the error,
/// disconnect the publisher (best effort), then wait before starting over.
#[derive(Clone, Copy, Debug, PartialEq, Eq, Structural)]
pub struct Recovery {
    pub report: RunError,
    pub disconnect: bool,
    pub wait_ms: u64,
}

/// The recovery from a failed run: the same for every error, but for the
/// error it reports.
pub open spec fn recovery_for(e: RunError) -> Recovery {
    Recovery { report: e, disconnect: true, wait_ms: BACKOFF_MS }
}

/// The loop that owns the pipeline runs: it starts one, recovers when it
/// fails, and starts over, with no state in which it stops.
pub struct Supervisor {
    pub phase: Phase,
}

impl Supervisor {
    /// A supervisor that starts its first run.
    pub fn new() -> (r: Supervisor)
        ensures
            r.phase == Phase::Running,
    {
        Supervisor { phase: Phase::Running }
    }

    /// The current run failed with `e`: the supervisor recovers.
    pub fn on_run_failed(&mut self, e: RunError) -> (r: Recovery)
        requires
            old(self).phase == Phase::Running,
        ensures
            final(self).phase == Phase::Recovering,
            r == recovery_for(e),
    {
        self.phase = Phase::Recovering;
        Recovery { report: e, disconnect: true, wait_ms: BACKOFF_MS }
    }

    /// The wait is over: the supervisor starts a new run.
    pub fn on_backoff_elapsed(&mut self)
        requires
            old(self).phase == Phase::Recovering,
        ensures
            final(self).phase == Phase::Running,
    {
        self.phase = Phase::Running;
    }
}

/// A readout that does not decode ends the run: no message of it is sent,
/// the run reports a decode error, and the supervisor recovers from it with
/// the fixed wait before it starts over.
pub proof fn lemma_decode_failure_aborts_run(s: RunnerView)
    requires
        accepts(s, EventView::DecodeFailed),
    ensures
        step(s, EventView::DecodeFailed).1 == ActionView::Abort(RunError::Decode),
        step(s, EventView::DecodeFailed).0.failed == Some(RunError::Decode),
        step(s, EventView::DecodeFailed).0.sent == s.sent,
        step(s, EventView::DecodeFailed).0.pending.len() == 0,
        recovery_for(RunError::Decode) == (Recovery {
            report: RunError::Decode,
            disconnect: true,
            wait_ms: BACKOFF_MS,
        }),
{
}

/// The end of the readouts ends the run like any other failure: the run
/// reports it as an error, and the supervisor recovers from it exactly as it
/// does from any error `e`, but for the error it reports.
pub proof fn lemma_exhaustion_is_a_failure(s: RunnerView, e: RunError)
    requires
        accepts(s, EventView::SourceExhausted),
    ensures
        step(s, EventView::SourceExhausted).1 == ActionView::Abort(RunError::EndOfReader),
        step(s, EventView::SourceExhausted).0.failed == Some(RunError::EndOfReader),
        step(s, EventView::SourceExhausted).0.sent == s.sent,
        recovery_for(RunError::EndOfReader) == (Recovery {
            report: RunError::EndOfReader,
            ..recovery_for(e)
        }),
{
}

} // verus!
