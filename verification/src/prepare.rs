//! The preparation pipeline: prevalidate, compile, and — for `Precheck`
//! jobs only — construct a runtime instance from the compiled bytes.
//!
//! The external compiler performs each stage; this machine decides which
//! stage runs next and what the job's final result is, short-circuiting on
//! the first failure. Running a stage and reporting its outcome is the
//! caller's job: it asks [`PrepareJob::next_action`] what to run, runs it,
//! and hands the outcome back through [`PrepareJob::step`].

use crate::error::PrepareError;
use crate::job::PrepareJobKind;
use vstd::prelude::*;

verus! {

/// Where the pipeline stands.
#[derive(Debug, PartialEq, Eq)]
pub enum JobStage {
    /// The structure of the raw code has not been checked yet.
    NeedPrevalidation,
    /// The code is structurally valid and awaits compilation.
    NeedCompilation,
    /// The code compiled; a runtime instance must still be constructed
    /// from the artifact to catch errors only observable at instantiation
    /// time. Reached only under `Precheck`.
    NeedConstruction { artifact: Vec<u8> },
    /// The pipeline is over, one way or the other.
    Done { result: Result<Vec<u8>, PrepareError> },
}

/// What the external compiler reported for the stage that just ran. An
/// `Err` payload carries the compiler's rendered diagnostic.
#[derive(Debug, PartialEq, Eq)]
pub enum JobEvent {
    PrevalidationDone(Result<(), Vec<u8>>),
    CompilationDone(Result<Vec<u8>, Vec<u8>>),
    ConstructionDone(Result<(), Vec<u8>>),
}

/// What the caller should do next.
#[derive(Clone, Copy, Debug, PartialEq, Eq, Structural)]
pub enum JobAction {
    RunPrevalidation,
    RunCompilation,
    RunConstruction,
    Finish,
}

/// One preparation job's pipeline state.
#[derive(Debug, PartialEq, Eq)]
pub struct PrepareJob {
    kind: PrepareJobKind,
    stage: JobStage,
}

/// Whether `event` reports the stage that `stage` awaits.
pub open spec fn spec_event_matches(stage: JobStage, event: JobEvent) -> bool {
    match event {
        JobEvent::PrevalidationDone(_) => stage is NeedPrevalidation,
        JobEvent::CompilationDone(_) => stage is NeedCompilation,
        JobEvent::ConstructionDone(_) => stage matches JobStage::NeedConstruction { .. },
    }
}

/// The transition relation of the pipeline: each stage outcome either
/// advances the job or finishes it with the error of its stage. A
/// compilation success finishes a `Lenient` job at once and sends a
/// `Precheck` job into runtime construction.
pub open spec fn spec_step(kind: PrepareJobKind, stage: JobStage, event: JobEvent) -> JobStage {
    match event {
        JobEvent::PrevalidationDone(r) => match r {
            Ok(_) => JobStage::NeedCompilation,
            Err(m) => JobStage::Done { result: Err(PrepareError::Prevalidation(m)) },
        },
        JobEvent::CompilationDone(r) => match r {
            Ok(artifact) => if kind is Precheck {
                JobStage::NeedConstruction { artifact }
            } else {
                JobStage::Done { result: Ok(artifact) }
            },
            Err(m) => JobStage::Done { result: Err(PrepareError::Preparation(m)) },
        },
        JobEvent::ConstructionDone(r) => match (r, stage) {
            (Ok(_), JobStage::NeedConstruction { artifact }) => JobStage::Done {
                result: Ok(artifact),
            },
            (Err(m), _) => JobStage::Done { result: Err(PrepareError::RuntimeConstruction(m)) },
            _ => stage,
        },
    }
}

/// What a job in `stage` asks its caller to do.
pub open spec fn spec_next_action(stage: JobStage) -> JobAction {
    match stage {
        JobStage::NeedPrevalidation => JobAction::RunPrevalidation,
        JobStage::NeedCompilation => JobAction::RunCompilation,
        JobStage::NeedConstruction { .. } => JobAction::RunConstruction,
        JobStage::Done { .. } => JobAction::Finish,
    }
}

/// A job only ever awaits construction under `Precheck`.
pub open spec fn wf_job(kind: PrepareJobKind, stage: JobStage) -> bool {
    stage matches JobStage::NeedConstruction { .. } ==> kind is Precheck
}

impl PrepareJob {
    pub closed spec fn kind(&self) -> PrepareJobKind {
        self.kind
    }

    pub closed spec fn stage(&self) -> JobStage {
        self.stage
    }

    /// A fresh pipeline for one request.
    pub fn new(kind: PrepareJobKind) -> (j: Self)
        ensures
            j.kind() == kind,
            j.stage() == JobStage::NeedPrevalidation,
            wf_job(j.kind(), j.stage()),
    {
        PrepareJob { kind, stage: JobStage::NeedPrevalidation }
    }

    /// What to run next.
    pub fn next_action(&self) -> (a: JobAction)
        requires
            wf_job(self.kind(), self.stage()),
        ensures
            a == spec_next_action(self.stage()),
            a is RunConstruction ==> self.kind() is Precheck,
    {
        match &self.stage {
            JobStage::NeedPrevalidation => JobAction::RunPrevalidation,
            JobStage::NeedCompilation => JobAction::RunCompilation,
            JobStage::NeedConstruction { .. } => JobAction::RunConstruction,
            JobStage::Done { .. } => JobAction::Finish,
        }
    }

    /// Feeds the outcome of the stage that just ran into the pipeline.
    pub fn step(&mut self, event: JobEvent)
        requires
            wf_job(old(self).kind(), old(self).stage()),
            spec_event_matches(old(self).stage(), event),
        ensures
            final(self).kind() == old(self).kind(),
            final(self).stage() == spec_step(old(self).kind(), old(self).stage(), event),
            wf_job(final(self).kind(), final(self).stage()),
    {
        let next = match event {
            JobEvent::PrevalidationDone(r) => match r {
                Ok(_) => JobStage::NeedCompilation,
                Err(m) => JobStage::Done { result: Err(PrepareError::Prevalidation(m)) },
            },
            JobEvent::CompilationDone(r) => match r {
                Ok(artifact) => match self.kind {
                    PrepareJobKind::Precheck => JobStage::NeedConstruction { artifact },
                    PrepareJobKind::Lenient => JobStage::Done { result: Ok(artifact) },
                },
                Err(m) => JobStage::Done { result: Err(PrepareError::Preparation(m)) },
            },
            JobEvent::ConstructionDone(r) => {
                let mut stage = JobStage::NeedPrevalidation;
                core::mem::swap(&mut stage, &mut self.stage);
                match (r, stage) {
                    (Ok(_), JobStage::NeedConstruction { artifact }) => JobStage::Done {
                        result: Ok(artifact),
                    },
                    (Err(m), _) => JobStage::Done {
                        result: Err(PrepareError::RuntimeConstruction(m)),
                    },
                    (_, stage) => stage,
                }
            },
        };
        self.stage = next;
    }

    /// The artifact awaiting runtime construction, for the caller that
    /// must hand it to the external compiler.
    pub fn pending_artifact(&self) -> (r: Option<&Vec<u8>>)
        ensures
            match self.stage() {
                JobStage::NeedConstruction { artifact } => r matches Some(a) && a@ == artifact@,
                _ => r is None,
            },
    {
        match &self.stage {
            JobStage::NeedConstruction { artifact } => Some(artifact),
            _ => None,
        }
    }

    /// Takes the final result out of a finished pipeline.
    pub fn into_result(self) -> (r: Result<Vec<u8>, PrepareError>)
        requires
            self.stage() matches JobStage::Done { .. },
        ensures
            self.stage() matches JobStage::Done { result } && r == result,
    {
        match self.stage {
            JobStage::Done { result } => result,
            _ => Err(PrepareError::JobError(crate::error::JobFault::MalformedResponse)),
        }
    }
}

/// Under `Lenient`, a structurally valid input succeeds exactly when the
/// external compiler succeeds, the error of a failed compilation is
/// `Preparation`, and runtime construction is never requested at any point
/// of the run.
pub proof fn lemma_lenient_run(compilation: Result<Vec<u8>, Vec<u8>>)
    ensures
        ({
            let s0 = JobStage::NeedPrevalidation;
            let s1 = spec_step(PrepareJobKind::Lenient, s0, JobEvent::PrevalidationDone(Ok(())));
            let s2 = spec_step(PrepareJobKind::Lenient, s1, JobEvent::CompilationDone(compilation));
            &&& spec_next_action(s0) != JobAction::RunConstruction
            &&& spec_next_action(s1) != JobAction::RunConstruction
            &&& spec_next_action(s2) == JobAction::Finish
            &&& match compilation {
                Ok(artifact) => s2 == (JobStage::Done { result: Ok(artifact) }),
                Err(m) => s2 == (JobStage::Done {
                    result: Err(PrepareError::Preparation(m)),
                }),
            }
        }),
{
}

/// Under `Precheck`, success needs both compilation and runtime
/// construction to succeed; an input that compiles but cannot be
/// instantiated yields `RuntimeConstruction`, never `Preparation`.
pub proof fn lemma_precheck_run(artifact: Vec<u8>, construction: Result<(), Vec<u8>>)
    ensures
        ({
            let s0 = JobStage::NeedPrevalidation;
            let s1 = spec_step(PrepareJobKind::Precheck, s0, JobEvent::PrevalidationDone(Ok(())));
            let s2 = spec_step(
                PrepareJobKind::Precheck,
                s1,
                JobEvent::CompilationDone(Ok(artifact)),
            );
            let s3 = spec_step(
                PrepareJobKind::Precheck,
                s2,
                JobEvent::ConstructionDone(construction),
            );
            &&& s2 == (JobStage::NeedConstruction { artifact })
            &&& spec_next_action(s2) == JobAction::RunConstruction
            &&& match construction {
                Ok(_) => s3 == (JobStage::Done { result: Ok(artifact) }),
                Err(m) => s3 == (JobStage::Done {
                    result: Err(PrepareError::RuntimeConstruction(m)),
                }),
            }
        }),
{
}

/// A `Precheck` job whose compilation fails never reaches construction and
/// reports `Preparation`: the two failure kinds cannot be confused.
pub proof fn lemma_precheck_compilation_failure(message: Vec<u8>)
    ensures
        ({
            let s1 = spec_step(
                PrepareJobKind::Precheck,
                JobStage::NeedPrevalidation,
                JobEvent::PrevalidationDone(Ok(())),
            );
            let s2 = spec_step(
                PrepareJobKind::Precheck,
                s1,
                JobEvent::CompilationDone(Err(message)),
            );
            &&& s2 == (JobStage::Done { result: Err(PrepareError::Preparation(message)) })
            &&& spec_next_action(s2) == JobAction::Finish
        }),
{
}

} // verus!
