//! The wait/notify bridge between the two endpoints.
//!
//! In the running system this is a kernel blocking-wait on an opaque handle:
//! an endpoint that saw `NotReady` parks itself until the ring or the peer
//! state changes, so idle channels burn no CPU. The kernel call itself is an
//! external collaborator; what the channel relies on — and what is stated
//! here — is the shape of every outcome: a wait ends either because the
//! handle was signaled or, terminally, because the peer is gone. With both
//! endpoints driven in one process the model never actually parks: the
//! harness runs the peer instead, which is exactly the state change a real
//! wait would sleep for.

use vstd::prelude::*;
use crate::channel::Channel;

verus! {

/// The outcome of waiting on the peer's handle.
#[derive(Clone, Copy, Debug, PartialEq, Eq, Structural)]
pub enum WaitResult {
    /// The handle was signaled: ring or pool state may have changed; retry
    /// the refused operation.
    Signaled,
    /// The peer is gone; the wait fails terminally and no further entries
    /// will arrive.
    PeerGone,
}

/// Wait until the peer's handle is signaled or the peer is gone.
///
/// Fails with `PeerGone` exactly when the channel is closed; otherwise the
/// wait completes signaled and the caller retries its refused operation.
pub fn wait_for_channel(chan: &Channel) -> (r: WaitResult)
    requires
        chan.wf(),
    ensures
        r is PeerGone <==> chan.spec_state() is Closed,
{
    if chan.is_closed() {
        WaitResult::PeerGone
    } else {
        WaitResult::Signaled
    }
}

} // verus!
