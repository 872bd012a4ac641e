//! The typed failure taxonomy of a preparation job.
//!
//! Input-defect errors (`Prevalidation`, `Preparation`, `RuntimeConstruction`)
//! are attributable to the untrusted code; resource errors (`TimedOut`,
//! `OutOfMemory`) to resource policy; the rest (`JobDied`, `JobError`,
//! `IoErr`, `Kernel`) to the host environment or an adversarial child and
//! always fail closed. Every kind is encoded and sent back over the channel
//! as a typed value; none is silently swallowed.

use vstd::prelude::*;

verus! {

/// The syscall that failed when a [`PrepareError::Kernel`] error is reported.
#[derive(Clone, Copy, Debug, PartialEq, Eq, Structural)]
pub enum KernelCall {
    /// Reading the cumulative child resource counters before the fork.
    GetRusageBefore,
    /// Duplicating the process for an isolated job.
    Fork,
    /// Reaping the finished child.
    Waitpid,
    /// Reading the cumulative child resource counters after the wait.
    GetRusageAfter,
}

/// A failed syscall: which call, and the `errno` the OS reported.
#[derive(Clone, Copy, Debug, PartialEq, Eq, Structural)]
pub struct KernelFailure {
    pub call: KernelCall,
    pub errno: i32,
}

/// Why a child process is considered dead rather than failed.
#[derive(Clone, Copy, Debug, PartialEq, Eq, Structural)]
pub enum JobDeathCause {
    /// The child was killed by the given signal.
    Signal(i32),
    /// The wait status matched no recognized shape. An adversarial child can
    /// forge exit statuses, so every unrecognized case fails closed here.
    UnexpectedWaitStatus,
}

/// A job-level fault: the child ran but its outcome cannot be trusted.
#[derive(Clone, Debug, PartialEq, Eq)]
pub enum JobFault {
    /// The job thread panicked; the payload is its rendered panic message.
    Panic(Vec<u8>),
    /// The payload decoded as success but the child's exit status was not 0.
    UnexpectedExitStatus(i32),
    /// The bytes read from the pipe do not decode as a job result.
    MalformedResponse,
}

/// A transport or thread-plumbing failure inside a job.
#[derive(Clone, Debug, PartialEq, Eq)]
pub enum IoFault {
    /// An OS read, write or spawn failed; the payload is its rendered error.
    Transport(Vec<u8>),
    /// The CPU monitor reported a timeout but its channel was already closed.
    MonitorChannelClosed,
    /// The CPU monitor thread panicked; the payload is its rendered message.
    MonitorPanicked(Vec<u8>),
}

/// Everything that can go wrong with a preparation job.
///
/// Byte payloads carry diagnostic messages rendered by the caller (for the
/// compiler stages, the external compiler's own error text).
#[derive(Clone, Debug, PartialEq, Eq)]
pub enum PrepareError {
    /// The structure of the submitted code is malformed; found before
    /// compilation.
    Prevalidation(Vec<u8>),
    /// The external compiler failed on the validated code.
    Preparation(Vec<u8>),
    /// Constructing a runtime instance from the compiled bytes failed; only
    /// checked for `Precheck` jobs.
    RuntimeConstruction(Vec<u8>),
    /// The job's CPU time reached its deadline.
    TimedOut,
    /// The job crossed its configured memory ceiling.
    OutOfMemory,
    /// The child process died without delivering a trustworthy result.
    JobDied(JobDeathCause),
    /// The child ran but produced an untrustworthy or panicked outcome.
    JobError(JobFault),
    /// A transport or filesystem failure.
    IoErr(IoFault),
    /// An OS syscall failed in the supervisor.
    Kernel(KernelFailure),
}

/// Mathematical image of [`JobFault`].
pub enum JobFaultView {
    Panic(Seq<u8>),
    UnexpectedExitStatus(i32),
    MalformedResponse,
}

/// Mathematical image of [`IoFault`].
pub enum IoFaultView {
    Transport(Seq<u8>),
    MonitorChannelClosed,
    MonitorPanicked(Seq<u8>),
}

/// Mathematical image of [`PrepareError`].
pub enum ErrorView {
    Prevalidation(Seq<u8>),
    Preparation(Seq<u8>),
    RuntimeConstruction(Seq<u8>),
    TimedOut,
    OutOfMemory,
    JobDied(JobDeathCause),
    JobError(JobFaultView),
    IoErr(IoFaultView),
    Kernel(KernelFailure),
}

impl View for JobFault {
    type V = JobFaultView;

    open spec fn view(&self) -> JobFaultView {
        match self {
            JobFault::Panic(m) => JobFaultView::Panic(m@),
            JobFault::UnexpectedExitStatus(s) => JobFaultView::UnexpectedExitStatus(*s),
            JobFault::MalformedResponse => JobFaultView::MalformedResponse,
        }
    }
}

impl View for IoFault {
    type V = IoFaultView;

    open spec fn view(&self) -> IoFaultView {
        match self {
            IoFault::Transport(m) => IoFaultView::Transport(m@),
            IoFault::MonitorChannelClosed => IoFaultView::MonitorChannelClosed,
            IoFault::MonitorPanicked(m) => IoFaultView::MonitorPanicked(m@),
        }
    }
}

impl View for PrepareError {
    type V = ErrorView;

    open spec fn view(&self) -> ErrorView {
        match self {
            PrepareError::Prevalidation(m) => ErrorView::Prevalidation(m@),
            PrepareError::Preparation(m) => ErrorView::Preparation(m@),
            PrepareError::RuntimeConstruction(m) => ErrorView::RuntimeConstruction(m@),
            PrepareError::TimedOut => ErrorView::TimedOut,
            PrepareError::OutOfMemory => ErrorView::OutOfMemory,
            PrepareError::JobDied(c) => ErrorView::JobDied(*c),
            PrepareError::JobError(f) => ErrorView::JobError(f@),
            PrepareError::IoErr(f) => ErrorView::IoErr(f@),
            PrepareError::Kernel(k) => ErrorView::Kernel(*k),
        }
    }
}

} // verus!
