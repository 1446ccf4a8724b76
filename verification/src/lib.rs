//! Core logic of a cluster provisioner: a resource-lock allocator that
//! reserves one compute unit per request, a remote-execution engine that
//! extracts a credential payload from tagged script output, a lifecycle
//! recorder that enforces the cluster state machine, and the decision
//! logic of the creation and deletion queue consumers.
//!
//! All state here is modelled with plain values; the surrounding binary
//! drives queues, the database, the lock store and SSH sessions, and feeds
//! their answers into these functions.
use vstd::prelude::*;

pub mod allocator;
pub mod engine;
pub mod json;
pub mod lifecycle;
pub mod lock;
pub mod message;
pub mod queue;
pub mod records;
pub mod remote;
pub mod text;

verus! {

/// Time-to-live, in seconds, of a compute-unit reservation in the lock store.
pub const LOCK_TTL_SECS: u64 = 240;

/// Overall timeout, in seconds, for one remote script execution.
pub const EXEC_TIMEOUT_SECS: u64 = 300;

/// Message time-to-live, in milliseconds, of the creation retry queue.
pub const RETRY_TTL_MS: u64 = 30_000;

/// Message time-to-live, in milliseconds, of the deferred-deletion queue.
pub const WAITING_TTL_MS: u64 = 600_000;

} // verus!
