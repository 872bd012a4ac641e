//! Parent-side supervision of one isolated job process.
//!
//! The caller snapshots the cumulative child resource counters, forks,
//! reads the child's pipe to end of stream, reaps the child, snapshots the
//! counters again — and hands everything observed to
//! [`classify_job_outcome`], which decides what the job's result is.
//!
//! The classification is ordered deliberately: the CPU-time check comes
//! before the exit status is even looked at, so a child that narrowly
//! finished after spending its budget is still late; and every wait status
//! other than a recognized exit fails closed, because an adversarial child
//! can forge any exit status it wants — but never a success.

use crate::codec::decode_framed_job_result;
use crate::codec::spec_decode_framed_job_result;
use crate::error::ErrorView;
use crate::error::IoFault;
use crate::error::IoFaultView;
use crate::error::JobDeathCause;
use crate::error::JobFault;
use crate::error::JobFaultView;
use crate::error::KernelCall;
use crate::error::KernelFailure;
use crate::error::PrepareError;
use crate::job::CompiledArtifact;
use crate::job::PrepareStats;
use vstd::prelude::*;

verus! {

/// How a reaped child terminated, as far as the classification cares: a
/// normal exit with a status code, death by a signal, or any other shape
/// of wait status. The OS reports more shapes (stopped, continued, trace
/// events); the caller maps every one of them to `Other`, and the
/// classification fails closed on all of them.
#[derive(Clone, Copy, Debug, PartialEq, Eq, Structural)]
pub enum WaitStatus {
    /// The child exited normally with the given status code.
    Exited(i32),
    /// The child was killed by the given signal.
    Signaled(i32),
    /// Any other wait status, recognized or forged.
    Other,
}

/// One snapshot of cumulative child CPU usage, split the way the OS
/// reports it.
#[derive(Clone, Copy, Debug, PartialEq, Eq, Structural)]
pub struct ResourceUsage {
    /// Whole seconds of user time.
    pub user_sec: i64,
    /// Microseconds of user time beyond the whole seconds.
    pub user_usec: i64,
    /// Whole seconds of system time.
    pub system_sec: i64,
    /// Microseconds of system time beyond the whole seconds.
    pub system_usec: i64,
}

/// A usage snapshot as the OS hands it out: non-negative, with the
/// microsecond parts below one second, and small enough that the total in
/// microseconds fits comfortably in 64 bits.
pub open spec fn wf_usage(u: ResourceUsage) -> bool {
    &&& 0 <= u.user_sec
    &&& 0 <= u.system_sec
    &&& 0 <= u.user_usec < 1_000_000
    &&& 0 <= u.system_usec < 1_000_000
    &&& u.user_sec + u.system_sec <= 1_000_000_000_000
}

/// Total CPU time of a snapshot in microseconds: user and system time
/// together.
pub open spec fn spec_total_cpu_micros(u: ResourceUsage) -> int {
    (u.user_sec + u.system_sec) * 1_000_000 + u.user_usec + u.system_usec
}

/// Calculates the total CPU time of a usage snapshot, user and system
/// time combined, in microseconds.
pub fn get_total_cpu_usage(rusage: &ResourceUsage) -> (micros: u64)
    requires
        wf_usage(*rusage),
    ensures
        micros == spec_total_cpu_micros(*rusage),
{
    (((rusage.user_sec + rusage.system_sec) * 1_000_000) + rusage.system_usec + rusage.user_usec)
        as u64
}

/// The classification relation of §"state machine": what the parent
/// concludes from everything it observed about one child, in priority
/// order. `cpu_micros` is the child's isolated CPU time: the counter
/// difference between the two snapshots around its lifetime.
pub open spec fn spec_classify(
    received: Result<Seq<u8>, Seq<u8>>,
    wait: Result<WaitStatus, i32>,
    usage_after: Result<ResourceUsage, i32>,
    cpu_micros: u64,
    timeout_micros: u64,
) -> Result<(Seq<u8>, PrepareStats), ErrorView> {
    match received {
        Err(m) => Err(ErrorView::IoErr(IoFaultView::Transport(m))),
        Ok(bytes) => match usage_after {
            Err(errno) => Err(
                ErrorView::Kernel(KernelFailure { call: KernelCall::GetRusageAfter, errno }),
            ),
            Ok(_) => if cpu_micros >= timeout_micros {
                Err(ErrorView::TimedOut)
            } else {
                match wait {
                    Ok(WaitStatus::Exited(code)) => match spec_decode_framed_job_result(bytes) {
                        None => Err(ErrorView::JobError(JobFaultView::MalformedResponse)),
                        Some(Err(e)) => Err(e),
                        Some(Ok(resp)) => if code != 0 {
                            Err(ErrorView::JobError(JobFaultView::UnexpectedExitStatus(code)))
                        } else {
                            Ok(
                                (
                                    resp.artifact,
                                    PrepareStats {
                                        cpu_time_micros: cpu_micros,
                                        memory_stats: resp.memory_stats,
                                    },
                                ),
                            )
                        },
                    },
                    Ok(WaitStatus::Signaled(signal)) => Err(
                        ErrorView::JobDied(JobDeathCause::Signal(signal)),
                    ),
                    Ok(WaitStatus::Other) => Err(
                        ErrorView::JobDied(JobDeathCause::UnexpectedWaitStatus),
                    ),
                    Err(errno) => Err(
                        ErrorView::Kernel(KernelFailure { call: KernelCall::Waitpid, errno }),
                    ),
                }
            },
        },
    }
}

/// Classifies one supervised child from what the parent observed: the
/// pipe read (all bytes up to end of stream, or the rendered read error),
/// the wait status (or the `errno` of a failed wait), the usage snapshot
/// taken before the fork, the one taken after the wait (or its `errno`),
/// and the job's CPU deadline.
///
/// On success the caller receives the artifact to write and the statistics
/// to report; an artifact exists exactly when the result is `Ok`, so
/// nothing is ever written to disk for a failed job.
pub fn classify_job_outcome(
    received: &Result<Vec<u8>, Vec<u8>>,
    wait: &Result<WaitStatus, i32>,
    usage_before: &ResourceUsage,
    usage_after: &Result<ResourceUsage, i32>,
    timeout_micros: u64,
) -> (r: Result<(CompiledArtifact, PrepareStats), PrepareError>)
    requires
        wf_usage(*usage_before),
        *usage_after matches Ok(after) ==> wf_usage(after) && spec_total_cpu_micros(*usage_before)
            <= spec_total_cpu_micros(after),
    ensures
        ({
            let received_v = match *received {
                Ok(b) => Ok::<Seq<u8>, Seq<u8>>(b@),
                Err(m) => Err::<Seq<u8>, Seq<u8>>(m@),
            };
            let cpu = match *usage_after {
                Ok(after) => (spec_total_cpu_micros(after) - spec_total_cpu_micros(
                    *usage_before,
                )) as u64,
                Err(_) => 0u64,
            };
            let spec_r = spec_classify(received_v, *wait, *usage_after, cpu, timeout_micros);
            match r {
                Ok((artifact, stats)) => spec_r == Ok::<_, ErrorView>((artifact@, stats)),
                Err(e) => spec_r == Err::<(Seq<u8>, PrepareStats), _>(e@),
            }
        }),
{
    match received {
        Err(m) => Err(PrepareError::IoErr(IoFault::Transport(m.clone()))),
        Ok(bytes) => match usage_after {
            Err(errno) => Err(
                PrepareError::Kernel(
                    KernelFailure { call: KernelCall::GetRusageAfter, errno: *errno },
                ),
            ),
            Ok(after) => {
                let total_before = get_total_cpu_usage(usage_before);
                let total_after = get_total_cpu_usage(after);
                let cpu_micros = total_after - total_before;
                if cpu_micros >= timeout_micros {
                    Err(PrepareError::TimedOut)
                } else {
                    match wait {
                        Ok(WaitStatus::Exited(code)) => {
                            match decode_framed_job_result(bytes.as_slice()) {
                                None => Err(
                                    PrepareError::JobError(JobFault::MalformedResponse),
                                ),
                                Some(Err(e)) => Err(e),
                                Some(Ok(resp)) => {
                                    if *code != 0 {
                                        Err(
                                            PrepareError::JobError(
                                                JobFault::UnexpectedExitStatus(*code),
                                            ),
                                        )
                                    } else {
                                        Ok(
                                            (
                                                resp.artifact,
                                                PrepareStats {
                                                    cpu_time_micros: cpu_micros,
                                                    memory_stats: resp.memory_stats,
                                                },
                                            ),
                                        )
                                    }
                                },
                            }
                        },
                        Ok(WaitStatus::Signaled(signal)) => Err(
                            PrepareError::JobDied(JobDeathCause::Signal(*signal)),
                        ),
                        Ok(WaitStatus::Other) => Err(
                            PrepareError::JobDied(JobDeathCause::UnexpectedWaitStatus),
                        ),
                        Err(errno) => Err(
                            PrepareError::Kernel(
                                KernelFailure { call: KernelCall::Waitpid, errno: *errno },
                            ),
                        ),
                    }
                }
            },
        },
    }
}

/// A job whose isolated CPU time reached its deadline is `TimedOut`, no
/// matter what the child managed to send or how it exited: the race
/// between "barely finished" and "barely late" resolves against the
/// child.
pub proof fn lemma_timeout_wins(
    bytes: Seq<u8>,
    wait: Result<WaitStatus, i32>,
    usage_after: ResourceUsage,
    cpu_micros: u64,
    timeout_micros: u64,
)
    requires
        cpu_micros >= timeout_micros,
    ensures
        spec_classify(Ok(bytes), wait, Ok(usage_after), cpu_micros, timeout_micros) == Err::<
            (Seq<u8>, PrepareStats),
            ErrorView,
        >(ErrorView::TimedOut),
{
}

/// No forged wait status reaches success: the classification returns `Ok`
/// only when the child exited normally with status 0 — on every other
/// wait status, and on a failed wait, the result is a failure.
pub proof fn lemma_fail_closed(
    received: Result<Seq<u8>, Seq<u8>>,
    wait: Result<WaitStatus, i32>,
    usage_after: Result<ResourceUsage, i32>,
    cpu_micros: u64,
    timeout_micros: u64,
)
    ensures
        spec_classify(received, wait, usage_after, cpu_micros, timeout_micros) is Ok ==> wait
            == Ok::<WaitStatus, i32>(WaitStatus::Exited(0)),
        !(wait matches Ok(WaitStatus::Exited(_))) ==> spec_classify(
            received,
            wait,
            usage_after,
            cpu_micros,
            timeout_micros,
        ) is Err,
{
}

} // verus!
