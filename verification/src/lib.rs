//! A verified submission/completion ring channel with a paired buffer pool.
//!
//! The library models the client/server transport of a microkernel-style
//! system: a client enqueues fixed-size queue entries into a submission ring,
//! a server dequeues them, does its work, and enqueues matching completion
//! entries into a completion ring. Large payloads travel zero-copy as buffer
//! tokens referencing a shared block arena. Every ring and pool operation is
//! non-blocking: a full or empty ring and an exhausted pool surface the
//! transient `NotReady` condition, and the caller decides when to retry.

pub mod channel;
pub mod entry;
pub mod errors;
pub mod executor;
pub mod pool;
pub mod registry;
pub mod ring;
pub mod transform;
pub mod wait;
