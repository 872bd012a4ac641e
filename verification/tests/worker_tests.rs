use pvf_prepare_worker::child::child_job_result;
use pvf_prepare_worker::child::exit_code_for;
use pvf_prepare_worker::child::finished_job_result;
use pvf_prepare_worker::child::timed_out_job_result;
use pvf_prepare_worker::child::JobThreadJoin;
use pvf_prepare_worker::child::MonitorJoin;
use pvf_prepare_worker::codec::encode_request;
use pvf_prepare_worker::error::IoFault;
use pvf_prepare_worker::error::JobFault;
use pvf_prepare_worker::error::PrepareError;
use pvf_prepare_worker::job::MemoryTrackerStats;
use pvf_prepare_worker::job::PrepJobRequest;
use pvf_prepare_worker::job::PrepareJobKind;
use pvf_prepare_worker::monitor::WaitOutcome;
use pvf_prepare_worker::worker::handshake_ok;
use pvf_prepare_worker::worker::worker_step;
use pvf_prepare_worker::worker::WorkerAction;
use pvf_prepare_worker::worker::WorkerEvent;

#[test]
fn handshake_accepts_matching_versions_only() {
    let v1 = Some(b"1.6.0".to_vec());
    let v2 = Some(b"1.7.0".to_vec());
    assert!(handshake_ok(&v1, &v1.clone()));
    assert!(!handshake_ok(&v1, &v2));
    assert!(!handshake_ok(&v1, &None));
    // A node that states no version skips the check.
    assert!(handshake_ok(&None, &v2));
    assert!(handshake_ok(&None, &None));
}

#[test]
fn a_decodable_request_is_run() {
    let request = PrepJobRequest {
        code: vec![1, 2, 3],
        executor_params: vec![4],
        timeout_micros: 10_000_000,
        kind: PrepareJobKind::Lenient,
    };
    let payload = encode_request(&request);
    match worker_step(WorkerEvent::Request(payload)) {
        WorkerAction::RunJob(r) => assert_eq!(r, request),
        WorkerAction::Shutdown => panic!("a valid request must be run"),
    }
}

#[test]
fn garbage_or_a_closed_channel_shuts_the_worker_down() {
    assert_eq!(
        worker_step(WorkerEvent::Request(vec![0xFF, 0x00, 0x01])),
        WorkerAction::Shutdown
    );
    assert_eq!(worker_step(WorkerEvent::Request(Vec::new())), WorkerAction::Shutdown);
    assert_eq!(worker_step(WorkerEvent::ChannelClosed), WorkerAction::Shutdown);
}

#[test]
fn finished_job_composes_the_memory_statistics() {
    let tracker = Some(MemoryTrackerStats { samples: 3, min_observed: 10, max_observed: 30 });
    let join = JobThreadJoin::Completed(Ok((vec![9, 9], Some(777))));
    let r = finished_job_result(join, -5, tracker);
    let response = r.expect("a completed job must succeed");
    assert_eq!(response.artifact.as_bytes(), &vec![9, 9]);
    assert_eq!(response.memory_stats.max_rss, Some(777));
    assert_eq!(response.memory_stats.memory_tracker_stats, tracker);
    // The negative tracking peak clamps to zero in the report.
    assert_eq!(response.memory_stats.peak_tracked_alloc, 0);
}

#[test]
fn a_panicked_job_thread_is_a_job_error() {
    let join = JobThreadJoin::Panicked(b"stack overflow".to_vec());
    let r = finished_job_result(join, 0, None);
    assert_eq!(
        r,
        Err(PrepareError::JobError(JobFault::Panic(b"stack overflow".to_vec())))
    );
}

#[test]
fn a_pipeline_error_passes_through_the_child_unchanged() {
    let join = JobThreadJoin::Completed(Err(PrepareError::Prevalidation(b"nope".to_vec())));
    let r = finished_job_result(join, 100, None);
    assert_eq!(r, Err(PrepareError::Prevalidation(b"nope".to_vec())));
}

#[test]
fn monitor_outcomes_map_to_their_errors() {
    assert_eq!(timed_out_job_result(MonitorJoin::Elapsed(5_000_000)), Err(PrepareError::TimedOut));
    assert_eq!(
        timed_out_job_result(MonitorJoin::ChannelClosed),
        Err(PrepareError::IoErr(IoFault::MonitorChannelClosed))
    );
    assert_eq!(
        timed_out_job_result(MonitorJoin::Panicked(b"??".to_vec())),
        Err(PrepareError::IoErr(IoFault::MonitorPanicked(b"??".to_vec())))
    );
}

#[test]
fn the_race_outcome_selects_the_verdict() {
    let ok_join = JobThreadJoin::Completed(Ok((vec![1], None)));
    let r = child_job_result(WaitOutcome::Finished, Some(ok_join), None, 10, None);
    assert!(r.is_ok());
    assert_eq!(exit_code_for(&r), 0);

    let r = child_job_result(
        WaitOutcome::TimedOut,
        None,
        Some(MonitorJoin::Elapsed(9_000_000)),
        10,
        None,
    );
    assert_eq!(r, Err(PrepareError::TimedOut));
    assert_eq!(exit_code_for(&r), 1);
}
