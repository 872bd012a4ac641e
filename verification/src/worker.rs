//! The worker loop's decisions: the startup version handshake and what to
//! do with each event on the host channel.
//!
//! The loop itself blocks on the channel, runs one job at a time through
//! the supervisor, and replies; any transport failure on the channel — or
//! a request that does not decode — ends the loop and the process, since a
//! worker that cannot trust its channel has nothing left to do.

use crate::codec::decode_request;
use crate::codec::spec_decode_request;
use crate::job::PrepJobRequest;
use vstd::prelude::*;

verus! {

/// Whether two byte strings are equal.
pub fn bytes_eq(a: &Vec<u8>, b: &Vec<u8>) -> (r: bool)
    ensures
        r <==> a@ == b@,
{
    if a.len() != b.len() {
        return false;
    }
    let n = a.len();
    let mut i: usize = 0;
    while i < n
        invariant
            n == a@.len(),
            n == b@.len(),
            i <= n,
            forall|k: int| 0 <= k < i ==> a@[k] == b@[k],
        decreases n - i,
    {
        if a[i] != b[i] {
            return false;
        }
        i = i + 1;
    }
    proof {
        assert(a@ =~= b@);
    }
    true
}

/// The startup handshake: when the launching node states its version, the
/// worker must state the same one, or the worker is aborted before it
/// accepts any job. A node that states no version skips the check.
pub fn handshake_ok(node_version: &Option<Vec<u8>>, worker_version: &Option<Vec<u8>>) -> (r: bool)
    ensures
        r == match (*node_version, *worker_version) {
            (Some(n), Some(w)) => n@ == w@,
            (Some(_), None) => false,
            (None, _) => true,
        },
{
    match node_version {
        None => true,
        Some(n) => match worker_version {
            None => false,
            Some(w) => bytes_eq(n, w),
        },
    }
}

/// One event on the host channel, as the transport hands it over.
#[derive(Debug, PartialEq, Eq)]
pub enum WorkerEvent {
    /// One complete frame's payload was received.
    Request(Vec<u8>),
    /// The channel closed or failed; no further frame will come.
    ChannelClosed,
}

/// What the worker loop does with an event.
#[derive(Debug, PartialEq, Eq)]
pub enum WorkerAction {
    /// Run this job and reply with its result.
    RunJob(PrepJobRequest),
    /// Leave the loop and let the process exit.
    Shutdown,
}

/// Decides one worker-loop iteration: a payload that decodes as a request
/// is run; a payload that does not decode, like a closed channel, shuts
/// the worker down.
pub fn worker_step(event: WorkerEvent) -> (a: WorkerAction)
    ensures
        match event {
            WorkerEvent::Request(bytes) => match spec_decode_request(bytes@) {
                Some(rv) => a matches WorkerAction::RunJob(r) && r@ == rv,
                None => a == WorkerAction::Shutdown,
            },
            WorkerEvent::ChannelClosed => a == WorkerAction::Shutdown,
        },
{
    match event {
        WorkerEvent::Request(bytes) => match decode_request(bytes.as_slice()) {
            Some(r) => WorkerAction::RunJob(r),
            None => WorkerAction::Shutdown,
        },
        WorkerEvent::ChannelClosed => WorkerAction::Shutdown,
    }
}

} // verus!
