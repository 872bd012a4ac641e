use pvf_prepare_worker::child::child_job_result;
use pvf_prepare_worker::child::exit_code_for;
use pvf_prepare_worker::child::JobThreadJoin;
use pvf_prepare_worker::codec::encode_job_result;
use pvf_prepare_worker::codec::oom_frame;
use pvf_prepare_worker::error::IoFault;
use pvf_prepare_worker::error::JobDeathCause;
use pvf_prepare_worker::error::JobFault;
use pvf_prepare_worker::error::KernelCall;
use pvf_prepare_worker::error::KernelFailure;
use pvf_prepare_worker::error::PrepareError;
use pvf_prepare_worker::job::CompiledArtifact;
use pvf_prepare_worker::job::JobResponse;
use pvf_prepare_worker::job::JobResult;
use pvf_prepare_worker::job::MemoryStats;
use pvf_prepare_worker::job::PrepareJobKind;
use pvf_prepare_worker::monitor::WaitOutcome;
use pvf_prepare_worker::prepare::JobEvent;
use pvf_prepare_worker::prepare::PrepareJob;
use pvf_prepare_worker::supervisor::classify_job_outcome;
use pvf_prepare_worker::supervisor::get_total_cpu_usage;
use pvf_prepare_worker::supervisor::ResourceUsage;
use pvf_prepare_worker::supervisor::WaitStatus;
use pvf_prepare_worker::wire::frame_payload;

fn usage(user_sec: i64, user_usec: i64, system_sec: i64, system_usec: i64) -> ResourceUsage {
    ResourceUsage { user_sec, user_usec, system_sec, system_usec }
}

fn no_stats() -> MemoryStats {
    MemoryStats { memory_tracker_stats: None, max_rss: None, peak_tracked_alloc: 0 }
}

/// A framed success payload as a child would pipe it back.
fn ok_frame(artifact: &[u8]) -> Vec<u8> {
    let result: JobResult = Ok(JobResponse {
        artifact: CompiledArtifact::new(artifact.to_vec()),
        memory_stats: no_stats(),
    });
    frame_payload(&encode_job_result(&result))
}

#[test]
fn total_cpu_usage_adds_user_and_system_time() {
    let u = usage(1, 500, 2, 250);
    assert_eq!(get_total_cpu_usage(&u), 3_000_750);
    let zero = usage(0, 0, 0, 0);
    assert_eq!(get_total_cpu_usage(&zero), 0);
}

#[test]
fn healthy_child_with_exit_zero_succeeds() {
    let received = Ok(ok_frame(&[4, 5, 6]));
    let wait = Ok(WaitStatus::Exited(0));
    let before = usage(1, 0, 0, 0);
    let after = Ok(usage(1, 500_000, 0, 0)); // 0.5 s of CPU
    let r = classify_job_outcome(&received, &wait, &before, &after, 2_000_000);
    let (artifact, stats) = r.expect("classification should succeed");
    assert_eq!(artifact.as_bytes(), &vec![4, 5, 6]);
    assert_eq!(stats.cpu_time_micros, 500_000);
    assert_eq!(stats.memory_stats, no_stats());
}

#[test]
fn cpu_at_or_over_the_timeout_is_timed_out_regardless_of_payload() {
    // The child sent a perfectly valid success payload and exited cleanly,
    // but its isolated CPU time reached the deadline: the race resolves to
    // TimedOut.
    let received = Ok(ok_frame(&[1]));
    let wait = Ok(WaitStatus::Exited(0));
    let before = usage(0, 0, 0, 0);
    let after = Ok(usage(2, 0, 0, 0)); // exactly the deadline
    let r = classify_job_outcome(&received, &wait, &before, &after, 2_000_000);
    assert_eq!(r, Err(PrepareError::TimedOut));
}

#[test]
fn forged_wait_statuses_never_reach_success() {
    let before = usage(0, 0, 0, 0);
    let after = Ok(usage(0, 1, 0, 0));
    let received = Ok(ok_frame(&[1])); // a valid success payload every time
    let statuses: Vec<(Result<WaitStatus, i32>, PrepareError)> = vec![
        (
            Ok(WaitStatus::Exited(1)),
            PrepareError::JobError(JobFault::UnexpectedExitStatus(1)),
        ),
        (
            Ok(WaitStatus::Exited(-1)),
            PrepareError::JobError(JobFault::UnexpectedExitStatus(-1)),
        ),
        (
            Ok(WaitStatus::Signaled(31)),
            PrepareError::JobDied(JobDeathCause::Signal(31)),
        ),
        (
            Ok(WaitStatus::Other),
            PrepareError::JobDied(JobDeathCause::UnexpectedWaitStatus),
        ),
        (
            Err(10),
            PrepareError::Kernel(KernelFailure { call: KernelCall::Waitpid, errno: 10 }),
        ),
    ];
    for (wait, expected) in statuses {
        let r = classify_job_outcome(&received, &wait, &before, &after, 2_000_000);
        assert_eq!(r, Err(expected));
    }
}

#[test]
fn oom_killed_child_is_classified_as_out_of_memory() {
    // The breaker wrote the pre-encoded frame and exited nonzero: the
    // supervisor classifies the job as OutOfMemory rather than hanging or
    // trusting the exit code alone.
    let received = Ok(oom_frame());
    let wait = Ok(WaitStatus::Exited(1));
    let before = usage(0, 0, 0, 0);
    let after = Ok(usage(0, 100, 0, 0));
    let r = classify_job_outcome(&received, &wait, &before, &after, 2_000_000);
    assert_eq!(r, Err(PrepareError::OutOfMemory));
}

#[test]
fn partial_pipe_bytes_from_a_dead_child_are_not_misread() {
    // A killed child can leave a truncated frame behind; with a clean exit
    // status that is a malformed response, never a success.
    let mut bytes = ok_frame(&[1, 2, 3]);
    bytes.truncate(bytes.len() - 2);
    let received = Ok(bytes);
    let wait = Ok(WaitStatus::Exited(0));
    let before = usage(0, 0, 0, 0);
    let after = Ok(usage(0, 1, 0, 0));
    let r = classify_job_outcome(&received, &wait, &before, &after, 2_000_000);
    assert_eq!(r, Err(PrepareError::JobError(JobFault::MalformedResponse)));
}

#[test]
fn typed_error_payload_passes_through() {
    let child_result: JobResult = Err(PrepareError::Preparation(b"ice".to_vec()));
    let received = Ok(frame_payload(&encode_job_result(&child_result)));
    // The child exits nonzero on errors; the typed payload still wins.
    let wait = Ok(WaitStatus::Exited(1));
    let before = usage(0, 0, 0, 0);
    let after = Ok(usage(0, 1, 0, 0));
    let r = classify_job_outcome(&received, &wait, &before, &after, 2_000_000);
    assert_eq!(r, Err(PrepareError::Preparation(b"ice".to_vec())));
}

#[test]
fn transport_and_syscall_failures_fail_closed() {
    let before = usage(0, 0, 0, 0);
    let after = Ok(usage(0, 1, 0, 0));
    let wait = Ok(WaitStatus::Exited(0));

    let r = classify_job_outcome(
        &Err(b"read: broken pipe".to_vec()),
        &wait,
        &before,
        &after,
        2_000_000,
    );
    assert_eq!(
        r,
        Err(PrepareError::IoErr(IoFault::Transport(b"read: broken pipe".to_vec())))
    );

    let r = classify_job_outcome(&Ok(ok_frame(&[1])), &wait, &before, &Err(3), 2_000_000);
    assert_eq!(
        r,
        Err(PrepareError::Kernel(KernelFailure { call: KernelCall::GetRusageAfter, errno: 3 }))
    );
}

#[test]
fn precheck_of_instantiation_failing_code_yields_runtime_construction_end_to_end() {
    // Two kilobytes of structurally valid code that compiles but cannot be
    // instantiated, prechecked: the child pipeline reports
    // RuntimeConstruction, the child exits nonzero, and the supervisor
    // propagates the same typed error — with no artifact to write.
    let code = vec![0x42u8; 2048];
    assert_eq!(code.len(), 2048);

    // Inside the child process.
    let mut job = PrepareJob::new(PrepareJobKind::Precheck);
    job.step(JobEvent::PrevalidationDone(Ok(())));
    job.step(JobEvent::CompilationDone(Ok(vec![0xC0u8; 4096])));
    job.step(JobEvent::ConstructionDone(Err(b"instantiation failed".to_vec())));
    let pipeline_result = job.into_result();
    let join = JobThreadJoin::Completed(pipeline_result.map(|a| (a, None)));
    let child_result = child_job_result(WaitOutcome::Finished, Some(join), None, 0, None);
    let exit_code = exit_code_for(&child_result);
    assert_eq!(exit_code, 1);
    let piped = frame_payload(&encode_job_result(&child_result));

    // Back in the parent.
    let wait = Ok(WaitStatus::Exited(exit_code));
    let before = usage(0, 0, 0, 0);
    let after = Ok(usage(0, 30_000, 0, 0));
    let r = classify_job_outcome(&Ok(piped), &wait, &before, &after, 60_000_000);
    assert_eq!(
        r,
        Err(PrepareError::RuntimeConstruction(b"instantiation failed".to_vec()))
    );
}
