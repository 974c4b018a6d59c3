//! The fixed-size queue entry and the buffer token it can carry.
//!
//! A `QueueEntry` is the unit moved through both rings: a submission written
//! by the client and, later, a completion written by the server under the
//! same correlation `id`. An `IoBuffer` is an opaque capability into the
//! shared block arena: a starting block plus a block count, passed by value
//! inside entries so that payload bytes are never copied.

use vstd::prelude::*;
use crate::errors::ErrorCode;

verus! {

/// Size in bytes of one arena block; allocation is in whole blocks.
pub const BLOCK_SIZE: usize = 512;

/// Number of buffer-token slots in one entry's payload.
pub const PAYLOAD_SLOTS: usize = 2;

/// A token referencing a contiguous run of blocks in the buffer pool.
///
/// The token is a capability, not the bytes themselves: whoever holds it may
/// read and write the referenced blocks, and must eventually return it to the
/// pool with an explicit free.
#[derive(Clone, Copy, Debug, PartialEq, Eq, Structural)]
pub struct IoBuffer {
    /// Index of the first block of the run.
    pub start_block: u16,
    /// Number of blocks in the run; zero marks an empty slot.
    pub num_blocks: u16,
}

impl IoBuffer {
    /// The empty token, used for payload slots that carry no buffer.
    pub fn none() -> (r: IoBuffer)
        ensures
            r == (IoBuffer { start_block: 0, num_blocks: 0 }),
    {
        IoBuffer { start_block: 0, num_blocks: 0 }
    }

    /// Whether the slot carries a real buffer.
    pub fn is_some(&self) -> (r: bool)
        ensures
            r == (self.num_blocks != 0),
    {
        self.num_blocks != 0
    }

    /// Length in bytes of the referenced run.
    pub open spec fn spec_len_bytes(self) -> int {
        self.num_blocks * BLOCK_SIZE
    }

    /// Length in bytes of the referenced run.
    pub fn len_bytes(&self) -> (r: usize)
        ensures
            r == self.spec_len_bytes(),
    {
        (self.num_blocks as usize) * BLOCK_SIZE
    }
}

/// The payload union of an entry: a bounded number of buffer-token slots
/// plus inline scalar arguments for commands that need no buffer.
#[derive(Clone, Copy, Debug, PartialEq, Eq)]
pub struct Payload {
    buffers: [IoBuffer; 2],
    args: [u64; 2],
}

impl Payload {
    /// A payload with every slot empty and every scalar zero.
    pub fn new() -> (r: Payload)
        ensures
            forall|i: int| 0 <= i < PAYLOAD_SLOTS ==> r.spec_buffer(i) == (IoBuffer {
                start_block: 0,
                num_blocks: 0,
            }),
            forall|i: int| 0 <= i < 2 ==> r.spec_arg(i) == 0u64,
    {
        Payload {
            buffers: [IoBuffer { start_block: 0, num_blocks: 0 }; 2],
            args: [0u64; 2],
        }
    }

    /// The token in slot `i`.
    pub closed spec fn spec_buffer(self, i: int) -> IoBuffer {
        self.buffers[i]
    }

    /// The inline scalar in slot `i`.
    pub closed spec fn spec_arg(self, i: int) -> u64 {
        self.args[i]
    }

    /// Read the token in slot `idx`.
    pub fn buffer(&self, idx: usize) -> (r: IoBuffer)
        requires
            idx < PAYLOAD_SLOTS,
        ensures
            r == self.spec_buffer(idx as int),
    {
        self.buffers[idx]
    }

    /// Store a token into slot `idx`, leaving every other slot unchanged.
    pub fn set_buffer(&mut self, idx: usize, b: IoBuffer)
        requires
            idx < PAYLOAD_SLOTS,
        ensures
            final(self).spec_buffer(idx as int) == b,
            forall|i: int|
                0 <= i < PAYLOAD_SLOTS && i != idx ==> final(self).spec_buffer(i) == old(
                    self,
                ).spec_buffer(i),
            forall|i: int| 0 <= i < 2 ==> final(self).spec_arg(i) == old(self).spec_arg(i),
    {
        self.buffers[idx] = b;
    }

    /// Read the inline scalar in slot `idx`.
    pub fn arg(&self, idx: usize) -> (r: u64)
        requires
            idx < 2,
        ensures
            r == self.spec_arg(idx as int),
    {
        self.args[idx]
    }

    /// Store an inline scalar into slot `idx`, leaving the rest unchanged.
    pub fn set_arg(&mut self, idx: usize, v: u64)
        requires
            idx < 2,
        ensures
            final(self).spec_arg(idx as int) == v,
            forall|i: int| 0 <= i < 2 && i != idx ==> final(self).spec_arg(i) == old(self).spec_arg(i),
            forall|i: int|
                0 <= i < PAYLOAD_SLOTS ==> final(self).spec_buffer(i) == old(self).spec_buffer(i),
    {
        self.args[idx] = v;
    }
}

/// One fixed-size submission or completion record.
///
/// `id` is an opaque correlation value chosen by the submitter and echoed
/// verbatim in the matching completion; the channel never interprets it.
/// Callers must keep ids unique among their outstanding operations, since
/// completions are matched by `id`, not by arrival order. `command` is an
/// opcode interpreted by whatever operates behind the server endpoint, and
/// `status` is meaningful only on completion entries.
#[derive(Clone, Copy, Debug, PartialEq, Eq)]
pub struct QueueEntry {
    /// Correlation value, echoed in the completion.
    pub id: u64,
    /// Opcode for the component behind the server.
    pub command: u16,
    /// Result of the operation; meaningful on completions only.
    pub status: ErrorCode,
    /// Buffer tokens and inline scalars.
    pub payload: Payload,
}

/// Opcode of the no-operation command: the server completes the entry
/// successfully without touching its payload.
pub const CMD_NOOP_OK: u16 = 0;

impl QueueEntry {
    /// A zeroed entry: id 0, no-op command, success status, empty payload.
    pub fn new() -> (r: QueueEntry)
        ensures
            r.id == 0u64,
            r.command == CMD_NOOP_OK,
            r.status is Success,
            forall|i: int| 0 <= i < PAYLOAD_SLOTS ==> r.payload.spec_buffer(i) == (IoBuffer {
                start_block: 0,
                num_blocks: 0,
            }),
            forall|i: int| 0 <= i < 2 ==> r.payload.spec_arg(i) == 0u64,
    {
        QueueEntry { id: 0, command: CMD_NOOP_OK, status: ErrorCode::Success, payload: Payload::new() }
    }

    /// The status as a boolean success test.
    pub fn status_is_ok(&self) -> (r: bool)
        ensures
            r == (self.status is Success),
    {
        self.status.is_ok()
    }
}

} // verus!
