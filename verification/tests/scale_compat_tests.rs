//! Cross-checks of the library's wire conventions against the SCALE codec
//! the original host ecosystem speaks: little-endian integers, `Ok`/`Err`
//! result tags, and single-byte variant tags.

use parity_scale_codec::Encode;
use pvf_prepare_worker::codec::encode_job_result;
use pvf_prepare_worker::codec::encode_request;
use pvf_prepare_worker::error::PrepareError;
use pvf_prepare_worker::job::JobResult;
use pvf_prepare_worker::job::PrepJobRequest;
use pvf_prepare_worker::job::PrepareJobKind;
use pvf_prepare_worker::wire::frame_payload;

#[test]
fn err_tag_and_kind_tag_match_scale_result_encoding() {
    // SCALE encodes `Result::Err(x)` as the byte 1 followed by x, and a
    // fieldless enum variant as its index byte. The library's encoding of
    // `Err(OutOfMemory)` must therefore coincide with SCALE's encoding of
    // an `Err(8u8)`.
    let scale: Vec<u8> = Result::<(), u8>::Err(8u8).encode();
    let library: JobResult = Err(PrepareError::OutOfMemory);
    assert_eq!(encode_job_result(&library), scale);
}

#[test]
fn integer_slots_match_scale_little_endian_encoding() {
    // A request with empty blobs isolates the timeout slot and the kind
    // tag: 8 zero bytes for each empty blob's length, then the timeout as
    // SCALE (little-endian) u64, then the kind byte.
    let request = PrepJobRequest {
        code: Vec::new(),
        executor_params: Vec::new(),
        timeout_micros: 0x0102_0304_0506_0708,
        kind: PrepareJobKind::Precheck,
    };
    let mut expected: Vec<u8> = 0u64.encode();
    expected.extend(0u64.encode());
    expected.extend(0x0102_0304_0506_0708u64.encode());
    expected.push(0);
    assert_eq!(encode_request(&request), expected);
}

#[test]
fn frame_prefix_matches_scale_u64_encoding() {
    let payload: Vec<u8> = vec![0xDE, 0xAD, 0xBE, 0xEF];
    let mut expected: Vec<u8> = (payload.len() as u64).encode();
    expected.extend(&payload);
    assert_eq!(frame_payload(&payload), expected);
}
