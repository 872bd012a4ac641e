//! Inside the job process: turning the thread race's outcome into the job
//! result that goes down the pipe, and into the process exit code.
//!
//! The caller runs the job thread and the CPU monitor thread, waits on the
//! shared outcome until it is no longer pending, stops the memory-tracking
//! session, joins whichever thread decided the race, and hands everything
//! to [`child_job_result`].

use crate::error::IoFault;
use crate::error::IoFaultView;
use crate::error::JobFault;
use crate::error::JobFaultView;
use crate::error::ErrorView;
use crate::error::PrepareError;
use crate::job::CompiledArtifact;
use crate::job::JobResponse;
use crate::job::JobResult;
use crate::job::MemoryStats;
use crate::job::MemoryTrackerStats;
use crate::monitor::WaitOutcome;
use crate::tracker::clamp_peak;
use crate::tracker::spec_clamped_peak;
use vstd::prelude::*;

verus! {

/// What joining the job thread yielded.
#[derive(Debug, PartialEq, Eq)]
pub enum JobThreadJoin {
    /// The thread ran to completion: the compiled artifact with the
    /// thread's OS-reported peak resident set size when available, or the
    /// pipeline's typed error.
    Completed(Result<(Vec<u8>, Option<u64>), PrepareError>),
    /// The thread panicked; the payload is its rendered panic message.
    Panicked(Vec<u8>),
}

/// What joining the CPU monitor thread yielded after it won the race.
#[derive(Debug, PartialEq, Eq)]
pub enum MonitorJoin {
    /// The monitor measured the deadline passed at this many elapsed CPU
    /// microseconds.
    Elapsed(u64),
    /// The monitor's channel was closed before it could report.
    ChannelClosed,
    /// The monitor thread panicked; the payload is its rendered message.
    Panicked(Vec<u8>),
}

/// The memory statistics reported for a finished job: the tracker thread's
/// series, the job thread's resident-set peak, and the tracking session's
/// clamped peak.
pub fn compose_memory_stats(
    peak: i64,
    max_rss: Option<u64>,
    tracker: Option<MemoryTrackerStats>,
) -> (m: MemoryStats)
    ensures
        m == (MemoryStats {
            memory_tracker_stats: tracker,
            max_rss,
            peak_tracked_alloc: spec_clamped_peak(peak),
        }),
{
    MemoryStats { memory_tracker_stats: tracker, max_rss, peak_tracked_alloc: clamp_peak(peak) }
}

/// What [`finished_job_result`] promises: a panic fails the job as a
/// `JobError`, a pipeline error passes through unchanged, and a completed
/// compilation becomes the success response carrying the artifact and the
/// composed memory statistics.
pub open spec fn finished_verdict_ok(
    join: JobThreadJoin,
    peak: i64,
    tracker: Option<MemoryTrackerStats>,
    r: JobResult,
) -> bool {
    match join {
        JobThreadJoin::Panicked(m) => r matches Err(e) && e@ == ErrorView::JobError(
            JobFaultView::Panic(m@),
        ),
        JobThreadJoin::Completed(Err(e)) => r == Err::<JobResponse, PrepareError>(e),
        JobThreadJoin::Completed(Ok((artifact, rss))) => r matches Ok(resp) && resp.artifact@
            == artifact@ && resp.memory_stats == (MemoryStats {
            memory_tracker_stats: tracker,
            max_rss: rss,
            peak_tracked_alloc: spec_clamped_peak(peak),
        }),
    }
}

/// The job result when the job thread won the race.
pub fn finished_job_result(
    join: JobThreadJoin,
    peak: i64,
    tracker: Option<MemoryTrackerStats>,
) -> (r: JobResult)
    ensures
        finished_verdict_ok(join, peak, tracker, r),
{
    match join {
        JobThreadJoin::Panicked(m) => Err(PrepareError::JobError(JobFault::Panic(m))),
        JobThreadJoin::Completed(Err(e)) => Err(e),
        JobThreadJoin::Completed(Ok((artifact, rss))) => Ok(
            JobResponse {
                artifact: CompiledArtifact::new(artifact),
                memory_stats: compose_memory_stats(peak, rss, tracker),
            },
        ),
    }
}

/// What [`timed_out_job_result`] promises: a confirmed measurement is a
/// timeout, and a monitor that could no longer report is a transport
/// fault — never a success.
pub open spec fn timeout_verdict_ok(join: MonitorJoin, r: JobResult) -> bool {
    match join {
        MonitorJoin::Elapsed(_) => r matches Err(e) && e@ == ErrorView::TimedOut,
        MonitorJoin::ChannelClosed => r matches Err(e) && e@ == ErrorView::IoErr(
            IoFaultView::MonitorChannelClosed,
        ),
        MonitorJoin::Panicked(m) => r matches Err(e) && e@ == ErrorView::IoErr(
            IoFaultView::MonitorPanicked(m@),
        ),
    }
}

/// The job result when the CPU monitor won the race.
pub fn timed_out_job_result(join: MonitorJoin) -> (r: JobResult)
    ensures
        timeout_verdict_ok(join, r),
{
    match join {
        MonitorJoin::Elapsed(_) => Err(PrepareError::TimedOut),
        MonitorJoin::ChannelClosed => Err(PrepareError::IoErr(IoFault::MonitorChannelClosed)),
        MonitorJoin::Panicked(m) => Err(PrepareError::IoErr(IoFault::MonitorPanicked(m))),
    }
}

/// The job result of the whole race. A pending outcome is not accepted:
/// the caller loops on the wait condition until the race has resolved.
pub fn child_job_result(
    outcome: WaitOutcome,
    job: Option<JobThreadJoin>,
    monitor: Option<MonitorJoin>,
    peak: i64,
    tracker: Option<MemoryTrackerStats>,
) -> (r: JobResult)
    requires
        outcome != WaitOutcome::Pending,
        outcome == WaitOutcome::Finished ==> job is Some,
        outcome == WaitOutcome::TimedOut ==> monitor is Some,
    ensures
        outcome == WaitOutcome::Finished ==> finished_verdict_ok(job->Some_0, peak, tracker, r),
        outcome == WaitOutcome::TimedOut ==> timeout_verdict_ok(monitor->Some_0, r),
{
    match outcome {
        WaitOutcome::Finished => match job {
            Some(join) => finished_job_result(join, peak, tracker),
            None => Err(PrepareError::IoErr(IoFault::MonitorChannelClosed)),
        },
        _ => match monitor {
            Some(join) => timed_out_job_result(join),
            None => Err(PrepareError::IoErr(IoFault::MonitorChannelClosed)),
        },
    }
}

/// The exit code the job process leaves with: 0 exactly on success — the
/// only signal the parent has before it decodes the payload.
pub fn exit_code_for(r: &JobResult) -> (code: i32)
    ensures
        (code == 0) <==> r is Ok,
        code == 0 || code == 1,
{
    match r {
        Ok(_) => 0,
        Err(_) => 1,
    }
}

} // verus!
