use pvf_prepare_worker::codec::decode_framed_job_result;
use pvf_prepare_worker::codec::decode_job_result;
use pvf_prepare_worker::codec::decode_prepare_result;
use pvf_prepare_worker::codec::decode_request;
use pvf_prepare_worker::codec::encode_job_result;
use pvf_prepare_worker::codec::encode_prepare_result;
use pvf_prepare_worker::codec::encode_request;
use pvf_prepare_worker::codec::oom_frame;
use pvf_prepare_worker::error::IoFault;
use pvf_prepare_worker::error::JobDeathCause;
use pvf_prepare_worker::error::JobFault;
use pvf_prepare_worker::error::KernelCall;
use pvf_prepare_worker::error::KernelFailure;
use pvf_prepare_worker::error::PrepareError;
use pvf_prepare_worker::job::CompiledArtifact;
use pvf_prepare_worker::job::JobResponse;
use pvf_prepare_worker::job::JobResult;
use pvf_prepare_worker::job::MemoryStats;
use pvf_prepare_worker::job::MemoryTrackerStats;
use pvf_prepare_worker::job::PrepJobRequest;
use pvf_prepare_worker::job::PrepareJobKind;
use pvf_prepare_worker::job::PrepareResult;
use pvf_prepare_worker::job::PrepareStats;
use pvf_prepare_worker::wire::frame_payload;

fn sample_stats() -> MemoryStats {
    MemoryStats {
        memory_tracker_stats: Some(MemoryTrackerStats {
            samples: 7,
            min_observed: 1024,
            max_observed: 65536,
        }),
        max_rss: Some(123_456),
        peak_tracked_alloc: 99_000,
    }
}

#[test]
fn pre_encoded_payloads() {
    // This must match the payload `send_child_response` would produce for an
    // out-of-memory failure: the framing length prefix, then the encoding of
    // `Err(PrepareError::OutOfMemory)`.
    let oom_unencoded: JobResult = Err(PrepareError::OutOfMemory);
    let oom_encoded = encode_job_result(&oom_unencoded);
    let mut oom_payload = (oom_encoded.len() as u64).to_le_bytes().to_vec();
    oom_payload.extend(oom_encoded);
    let expected: Vec<u8> = vec![0x02, 0x00, 0x00, 0x00, 0x00, 0x00, 0x00, 0x00, 0x01, 0x08];
    assert_eq!(oom_payload, expected);
    assert_eq!(oom_frame(), expected);
}

#[test]
fn oom_frame_decodes_to_out_of_memory() {
    let frame = oom_frame();
    let decoded = decode_framed_job_result(&frame);
    assert_eq!(decoded, Some(Err(PrepareError::OutOfMemory)));
}

#[test]
fn job_result_ok_round_trips() {
    let response = JobResponse {
        artifact: CompiledArtifact::new(vec![1, 2, 3, 4, 5]),
        memory_stats: sample_stats(),
    };
    let result: JobResult = Ok(response);
    let payload = encode_job_result(&result);
    assert_eq!(decode_job_result(&payload), Some(result));
}

#[test]
fn framed_job_result_round_trips() {
    let response = JobResponse {
        artifact: CompiledArtifact::new(vec![0xAA; 300]),
        memory_stats: MemoryStats {
            memory_tracker_stats: None,
            max_rss: None,
            peak_tracked_alloc: 0,
        },
    };
    let result: JobResult = Ok(response);
    let payload = encode_job_result(&result);
    let frame = frame_payload(&payload);
    assert_eq!(decode_framed_job_result(&frame), Some(result));
}

#[test]
fn every_error_kind_round_trips() {
    let errors: Vec<PrepareError> = vec![
        PrepareError::Prevalidation(b"bad section".to_vec()),
        PrepareError::Preparation(b"codegen failed".to_vec()),
        PrepareError::RuntimeConstruction(b"missing import".to_vec()),
        PrepareError::TimedOut,
        PrepareError::OutOfMemory,
        PrepareError::JobDied(JobDeathCause::Signal(9)),
        PrepareError::JobDied(JobDeathCause::Signal(-1)),
        PrepareError::JobDied(JobDeathCause::UnexpectedWaitStatus),
        PrepareError::JobError(JobFault::Panic(b"panicked at ...".to_vec())),
        PrepareError::JobError(JobFault::UnexpectedExitStatus(3)),
        PrepareError::JobError(JobFault::MalformedResponse),
        PrepareError::IoErr(IoFault::Transport(b"broken pipe".to_vec())),
        PrepareError::IoErr(IoFault::MonitorChannelClosed),
        PrepareError::IoErr(IoFault::MonitorPanicked(b"oops".to_vec())),
        PrepareError::Kernel(KernelFailure { call: KernelCall::GetRusageBefore, errno: 22 }),
        PrepareError::Kernel(KernelFailure { call: KernelCall::Fork, errno: 11 }),
        PrepareError::Kernel(KernelFailure { call: KernelCall::Waitpid, errno: 10 }),
        PrepareError::Kernel(KernelFailure { call: KernelCall::GetRusageAfter, errno: 1 }),
    ];
    for e in errors {
        let result: JobResult = Err(e);
        let payload = encode_job_result(&result);
        assert_eq!(decode_job_result(&payload), Some(result));
    }
}

#[test]
fn request_round_trips() {
    let request = PrepJobRequest {
        code: vec![0x00, 0x61, 0x73, 0x6D],
        executor_params: vec![9, 9, 9],
        timeout_micros: 60_000_000,
        kind: PrepareJobKind::Precheck,
    };
    let payload = encode_request(&request);
    assert_eq!(decode_request(&payload), Some(request));

    let request = PrepJobRequest {
        code: Vec::new(),
        executor_params: Vec::new(),
        timeout_micros: 0,
        kind: PrepareJobKind::Lenient,
    };
    let payload = encode_request(&request);
    assert_eq!(decode_request(&payload), Some(request));
}

#[test]
fn prepare_result_round_trips() {
    let result: PrepareResult = Ok(PrepareStats {
        cpu_time_micros: 1_500_000,
        memory_stats: sample_stats(),
    });
    let payload = encode_prepare_result(&result);
    assert_eq!(decode_prepare_result(&payload), Some(result));

    let result: PrepareResult = Err(PrepareError::TimedOut);
    let payload = encode_prepare_result(&result);
    assert_eq!(decode_prepare_result(&payload), Some(result));
}

#[test]
fn truncated_and_garbled_payloads_are_rejected() {
    let result: JobResult = Err(PrepareError::Preparation(b"x".to_vec()));
    let payload = encode_job_result(&result);
    // Every strict prefix fails to decode.
    for cut in 0..payload.len() {
        assert_eq!(decode_job_result(&payload[..cut]), None);
    }
    // Trailing bytes fail the strict decode.
    let mut padded = payload.clone();
    padded.push(0);
    assert_eq!(decode_job_result(&padded), None);
    // An unknown result tag is rejected.
    let mut wrong_tag = payload;
    wrong_tag[0] = 7;
    assert_eq!(decode_job_result(&wrong_tag), None);
    // A frame whose length prefix overruns the bytes is rejected.
    let mut short_frame = (100u64).to_le_bytes().to_vec();
    short_frame.extend([1u8, 8u8]);
    assert_eq!(decode_framed_job_result(&short_frame), None);
}

#[test]
fn decoding_then_reencoding_reproduces_the_bytes() {
    // The format is canonical: whatever decodes is the encoding of what it
    // decoded to.
    let originals: Vec<JobResult> = vec![
        Ok(JobResponse {
            artifact: CompiledArtifact::new(vec![1, 2, 3]),
            memory_stats: sample_stats(),
        }),
        Err(PrepareError::TimedOut),
        Err(PrepareError::JobDied(JobDeathCause::Signal(11))),
    ];
    for original in originals {
        let bytes = encode_job_result(&original);
        let decoded = decode_job_result(&bytes).expect("must decode");
        assert_eq!(encode_job_result(&decoded), bytes);
    }
}

#[test]
fn unknown_error_tag_is_rejected() {
    // Err tag, then an error-kind tag nothing encodes.
    let payload: Vec<u8> = vec![0x01, 0x2A];
    assert_eq!(decode_job_result(&payload), None);
}
