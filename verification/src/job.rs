//! Data model of a preparation job: the request a worker accepts, the
//! artifact a job produces, and the statistics reported alongside it.

use crate::error::ErrorView;
use crate::error::PrepareError;
use vstd::prelude::*;

verus! {

/// Distinguishes strict pre-acceptance checks from best-effort background
/// compilation.
///
/// Under `Precheck`, a runtime instance is additionally constructed from the
/// compiled bytes to catch errors only observable at instantiation time;
/// under `Lenient` that extra step is skipped.
#[derive(Clone, Copy, Debug, PartialEq, Eq, Structural)]
pub enum PrepareJobKind {
    Precheck,
    Lenient,
}

/// Contains the bytes for a successfully compiled artifact.
#[derive(Clone, Debug, PartialEq, Eq)]
pub struct CompiledArtifact(Vec<u8>);

impl View for CompiledArtifact {
    type V = Seq<u8>;

    closed spec fn view(&self) -> Seq<u8> {
        self.0@
    }
}

impl CompiledArtifact {
    /// Creates a `CompiledArtifact`.
    pub fn new(code: Vec<u8>) -> (r: Self)
        ensures
            r@ == code@,
    {
        Self(code)
    }

    /// The compiled bytes themselves.
    pub fn as_bytes(&self) -> (r: &Vec<u8>)
        ensures
            r@ == self@,
    {
        &self.0
    }
}

/// Summary of the memory-tracker thread's time series of observations.
#[derive(Clone, Copy, Debug, PartialEq, Eq, Structural)]
pub struct MemoryTrackerStats {
    /// How many samples the tracker thread took.
    pub samples: u64,
    /// The smallest observed value, in bytes.
    pub min_observed: u64,
    /// The largest observed value, in bytes.
    pub max_observed: u64,
}

/// Memory statistics of one finished job.
#[derive(Clone, Copy, Debug, PartialEq, Eq)]
pub struct MemoryStats {
    /// Time-series summary from the memory-tracker thread, when one ran.
    pub memory_tracker_stats: Option<MemoryTrackerStats>,
    /// OS-reported maximum resident set size of the job thread, when
    /// available.
    pub max_rss: Option<u64>,
    /// Peak of the allocation total tracked during the job, clamped to zero
    /// when the signed bookkeeping ended below zero.
    pub peak_tracked_alloc: u64,
}

/// Statistics the worker reports to the host for a successful job.
#[derive(Clone, Copy, Debug, PartialEq, Eq)]
pub struct PrepareStats {
    /// CPU time the isolated child consumed, in microseconds.
    pub cpu_time_micros: u64,
    /// Memory accounting collected inside the child.
    pub memory_stats: MemoryStats,
}

/// What a successful child process pipes back to the worker.
#[derive(Clone, Debug, PartialEq, Eq)]
pub struct JobResponse {
    /// The compiled artifact.
    pub artifact: CompiledArtifact,
    /// Memory accounting collected while compiling.
    pub memory_stats: MemoryStats,
}

/// Mathematical image of [`JobResponse`].
pub struct ResponseView {
    pub artifact: Seq<u8>,
    pub memory_stats: MemoryStats,
}

impl View for JobResponse {
    type V = ResponseView;

    open spec fn view(&self) -> ResponseView {
        ResponseView { artifact: self.artifact@, memory_stats: self.memory_stats }
    }
}

/// What the child pipes to the parent: an artifact with statistics, or a
/// typed error.
pub type JobResult = Result<JobResponse, PrepareError>;

/// Mathematical image of [`JobResult`].
pub type JobResultView = Result<ResponseView, ErrorView>;

/// What the worker sends back to the host for one job.
pub type PrepareResult = Result<PrepareStats, PrepareError>;

/// Mathematical image of [`PrepareResult`].
pub type PrepareResultView = Result<PrepareStats, ErrorView>;

/// The mathematical image of a [`JobResult`] value.
pub open spec fn job_result_view(r: JobResult) -> JobResultView {
    match r {
        Ok(resp) => Ok(resp@),
        Err(e) => Err(e@),
    }
}

/// The mathematical image of a [`PrepareResult`] value.
pub open spec fn prepare_result_view(r: PrepareResult) -> PrepareResultView {
    match r {
        Ok(stats) => Ok(stats),
        Err(e) => Err(e@),
    }
}

/// One preparation job as submitted by the host.
#[derive(Clone, Debug, PartialEq, Eq)]
pub struct PrepJobRequest {
    /// The untrusted code to compile.
    pub code: Vec<u8>,
    /// Opaque, externally defined execution-environment configuration,
    /// passed through to the external compiler as it came.
    pub executor_params: Vec<u8>,
    /// The preparation deadline in CPU microseconds.
    pub timeout_micros: u64,
    /// Strict pre-acceptance check, or best-effort background compilation.
    pub kind: PrepareJobKind,
}

/// Mathematical image of [`PrepJobRequest`].
pub struct RequestView {
    pub code: Seq<u8>,
    pub executor_params: Seq<u8>,
    pub timeout_micros: u64,
    pub kind: PrepareJobKind,
}

impl View for PrepJobRequest {
    type V = RequestView;

    open spec fn view(&self) -> RequestView {
        RequestView {
            code: self.code@,
            executor_params: self.executor_params@,
            timeout_micros: self.timeout_micros,
            kind: self.kind,
        }
    }
}

} // verus!
