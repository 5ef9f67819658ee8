//! Decision core of the cancellable executor.
//!
//! A long-running operation runs on a background worker while a supervising
//! loop polls an external interruption signal on a fixed cadence. The loop's
//! whole decision logic is the pure step function here: each tick observes
//! the signal and the worker and either cancels, propagates the worker's
//! finished result verbatim, or keeps waiting. The signal is consulted
//! before worker completion, so a signal set by the time the worker finishes
//! still cancels; the worker itself is never torn down, its discarded result
//! notwithstanding. The host loop around this (thread spawn, sleep, the real
//! signal probe) performs no decisions of its own.

use vstd::prelude::*;

verus! {

/// Poll cadence of the supervising loop, in milliseconds.
pub const POLL_INTERVAL_MS: u64 = 500;

/// What one poll observes of the background worker.
pub enum WorkerStatus<T, E> {
    /// Still running.
    Running,
    /// Finished, with the operation's own result.
    Finished(Result<T, E>),
}

/// What the supervising loop does after one poll.
pub enum StepDecision<T, E> {
    /// The external signal was set: report cancellation; the worker's
    /// eventual result is discarded.
    Cancelled,
    /// The worker finished first: its result is propagated verbatim.
    Done(Result<T, E>),
    /// Neither: sleep one interval and poll again.
    Wait,
}

/// One poll step. The signal is checked first, so cancellation raised at or
/// before worker completion is still observed.
pub fn executor_step<T, E>(signal_set: bool, status: WorkerStatus<T, E>) -> (d: StepDecision<
    T,
    E,
>)
    ensures
        signal_set ==> d == StepDecision::<T, E>::Cancelled,
        !signal_set ==> match status {
            WorkerStatus::Finished(res) => d == StepDecision::<T, E>::Done(res),
            WorkerStatus::Running => d == StepDecision::<T, E>::Wait,
        },
{
    if signal_set {
        StepDecision::Cancelled
    } else {
        match status {
            WorkerStatus::Finished(res) => StepDecision::Done(res),
            WorkerStatus::Running => StepDecision::Wait,
        }
    }
}

/// The decisive outcome of stepping through a script of observations, or
/// `None` when the script runs out while every tick said to keep waiting.
pub open spec fn script_outcome<T, E>(script: Seq<(bool, WorkerStatus<T, E>)>) -> Option<
    StepDecision<T, E>,
>
    decreases script.len(),
{
    if script.len() == 0 {
        None
    } else if script[0].0 {
        Some(StepDecision::Cancelled)
    } else {
        match script[0].1 {
            WorkerStatus::Finished(res) => Some(StepDecision::Done(res)),
            WorkerStatus::Running => script_outcome(script.drop_first()),
        }
    }
}

/// The supervising loop run over a pre-recorded script of observations —
/// the deterministic form of the poll loop, for exercising the decision
/// core without threads or a clock.
pub fn run_scripted<T, E>(script: Vec<(bool, WorkerStatus<T, E>)>) -> (r: Option<StepDecision<
    T,
    E,
>>)
    ensures
        r == script_outcome(script@),
{
    let mut rest = script;
    while rest.len() > 0
        invariant
            script_outcome(script@) == script_outcome(rest@),
        decreases rest.len(),
    {
        let ghost prev = rest@;
        let (sig, st) = rest.remove(0);
        proof {
            assert(rest@ =~= prev.drop_first());
        }
        let d = executor_step(sig, st);
        match d {
            StepDecision::Wait => {},
            decisive => {
                return Some(decisive);
            },
        }
    }
    None
}

} // verus!
