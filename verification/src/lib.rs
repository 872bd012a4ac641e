//! Sandboxed, resource-bounded preparation worker for parachain validation
//! functions (PVFs): the verified decision logic of an out-of-process
//! compiler host.
//!
//! The library models and verifies the parts of the worker that decide,
//! account and encode; the process, pipe and thread plumbing around it is
//! ordinary unverified code that feeds these functions plain values:
//!
//! - a length-prefixed wire codec for requests, responses and errors,
//! - a memory-tracking session with a configurable ceiling,
//! - the CPU-deadline monitor decision and the thread-race outcome,
//! - the preparation pipeline (prevalidate, compile, precheck-construct),
//! - the parent-side classification of a finished job process.

pub mod child;
pub mod codec;
pub mod error;
pub mod job;
pub mod monitor;
pub mod prepare;
pub mod supervisor;
pub mod tracker;
pub mod wire;
pub mod worker;

pub use job::CompiledArtifact;
pub use job::PrepareJobKind;
