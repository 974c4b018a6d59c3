//! The error taxonomy of the channel.
//!
//! Every surfaced condition is either the transient `NotReady` (ring full or
//! empty, pool exhausted: retry after waiting) or one of a small set of
//! terminal errors that the endpoint itself never retries.

use vstd::prelude::*;

verus! {

/// Status and error codes shared by both endpoints of a channel.
///
/// `Success` only ever appears as the `status` of a completion entry; functions
/// that return `Result` use the remaining variants as their error values.
#[derive(Clone, Copy, Debug, PartialEq, Eq, Structural)]
pub enum ErrorCode {
    /// Success status for a completion entry.
    Success,
    /// Transient condition: ring full or empty, or pool exhausted.
    /// Retry after waiting; never terminal.
    NotReady,
    /// Permission or reservation violation; terminal.
    NotAllowed,
    /// No listening channel under the requested name; terminal.
    NotFound,
    /// The requested name is already bound or already has a peer; terminal.
    AlreadyInUse,
    /// The peer endpoint is gone and the channel is closed; terminal.
    PeerGone,
    /// A malformed argument, such as invalid ring geometry; terminal.
    InvalidArgument,
}

impl ErrorCode {
    /// True exactly for the success status.
    pub fn is_ok(&self) -> (r: bool)
        ensures
            r == (*self is Success),
    {
        match self {
            ErrorCode::Success => true,
            _ => false,
        }
    }

    /// A human-readable name for the code.
    pub fn as_str(&self) -> (r: &'static str)
    {
        match self {
            ErrorCode::Success => "ok",
            ErrorCode::NotReady => "not ready",
            ErrorCode::NotAllowed => "not allowed",
            ErrorCode::NotFound => "not found",
            ErrorCode::AlreadyInUse => "already in use",
            ErrorCode::PeerGone => "peer gone",
            ErrorCode::InvalidArgument => "invalid argument",
        }
    }
}

} // verus!
