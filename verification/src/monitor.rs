//! The CPU-deadline monitor and the two-thread race it takes part in.
//!
//! Inside the job process, a job thread and a monitor thread race under a
//! shared wait condition: whichever completes the shared outcome first
//! determines the job's fate. `Pending` is a transitional state only — the
//! waiter loops until the outcome resolves, and nothing downstream accepts
//! a pending outcome as final.

use vstd::prelude::*;

verus! {

/// The shared outcome of the thread race.
#[derive(Clone, Copy, Debug, PartialEq, Eq, Structural)]
pub enum WaitOutcome {
    /// Neither thread has finished; never observable as a final outcome.
    Pending,
    /// The job thread completed (successfully or not) before the deadline.
    Finished,
    /// The monitor thread saw the CPU deadline pass first.
    TimedOut,
}

/// The shared cell the two threads race on: the first writer wins and
/// later writers change nothing.
pub struct OutcomeCell {
    outcome: WaitOutcome,
}

impl OutcomeCell {
    /// The current outcome.
    pub closed spec fn outcome(&self) -> WaitOutcome {
        self.outcome
    }

    pub fn new() -> (c: Self)
        ensures
            c.outcome() == WaitOutcome::Pending,
    {
        OutcomeCell { outcome: WaitOutcome::Pending }
    }

    /// Tries to resolve the race in favour of `desired`. Only the first
    /// non-pending write takes effect; the return value says whether this
    /// call was it.
    pub fn try_complete(&mut self, desired: WaitOutcome) -> (won: bool)
        requires
            desired != WaitOutcome::Pending,
        ensures
            old(self).outcome() == WaitOutcome::Pending ==> final(self).outcome() == desired && won,
            old(self).outcome() != WaitOutcome::Pending ==> final(self).outcome() == old(
                self,
            ).outcome() && !won,
            final(self).outcome() != WaitOutcome::Pending,
    {
        match self.outcome {
            WaitOutcome::Pending => {
                self.outcome = desired;
                true
            },
            _ => false,
        }
    }

    /// Reads the outcome; the waiter loops while this is `Pending`.
    pub fn read(&self) -> (o: WaitOutcome)
        ensures
            o == self.outcome(),
    {
        self.outcome
    }
}

/// What the monitor thread does after one look at the clock.
#[derive(Clone, Copy, Debug, PartialEq, Eq, Structural)]
pub enum MonitorStep {
    /// The deadline has passed: report a timeout carrying the elapsed CPU
    /// microseconds.
    ReportTimeout(u64),
    /// The job signalled completion before the deadline: stop quietly.
    Cancelled,
    /// Neither yet: sleep for the given number of CPU microseconds still
    /// outstanding, then look again.
    Sleep(u64),
}

/// One decision of the monitor thread's poll loop, from the job's elapsed
/// CPU time, its deadline, and whether the job has signalled completion.
///
/// The deadline is checked first: a completion signal that arrives only
/// after the CPU budget is spent does not rescue the job.
pub fn cpu_monitor_step(elapsed_micros: u64, deadline_micros: u64, finished: bool) -> (d:
    MonitorStep)
    ensures
        elapsed_micros >= deadline_micros ==> d == MonitorStep::ReportTimeout(elapsed_micros),
        elapsed_micros < deadline_micros && finished ==> d == MonitorStep::Cancelled,
        elapsed_micros < deadline_micros && !finished ==> d == MonitorStep::Sleep(
            (deadline_micros - elapsed_micros) as u64,
        ),
{
    if elapsed_micros >= deadline_micros {
        MonitorStep::ReportTimeout(elapsed_micros)
    } else if finished {
        MonitorStep::Cancelled
    } else {
        MonitorStep::Sleep(deadline_micros - elapsed_micros)
    }
}

} // verus!
