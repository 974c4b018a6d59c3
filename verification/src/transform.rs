//! The payload work the observed server performs on each submission.
//!
//! A client fills a buffer with a pattern byte; the server verifies the
//! pattern and inverts every byte (an exclusive-or with `0xFF`) before
//! completing the entry. Both directions are stated exactly: verification is
//! a pure test of the buffer's bytes, and inversion maps each byte through
//! the mask while every other allocated buffer stays untouched.

use vstd::prelude::*;
use crate::channel::Channel;
use crate::entry::{IoBuffer, BLOCK_SIZE};
use crate::pool::tokens_disjoint;

verus! {

/// Every byte of `s`, inverted.
pub open spec fn xor_mask(s: Seq<u8>) -> Seq<u8> {
    Seq::new(s.len(), |i: int| s[i] ^ 0xFF)
}

/// Whether every byte of the buffer owned by `t` equals `v`.
pub fn buffer_is_filled(chan: &Channel, t: IoBuffer, v: u8) -> (r: bool)
    requires
        chan.wf(),
        chan.spec_pool().spec_allocated(t),
    ensures
        r == (forall|i: int|
            0 <= i < t.spec_len_bytes() ==> chan.spec_pool().token_bytes(t)[i] == v),
{
    let len = t.len_bytes();
    proof {
        chan.lemma_token_bytes_len(t);
    }
    let mut off: usize = 0;
    while off < len
        invariant
            off <= len,
            len == t.spec_len_bytes(),
            chan.wf(),
            chan.spec_pool().spec_allocated(t),
            chan.spec_pool().token_bytes(t).len() == len,
            forall|i: int| 0 <= i < off ==> chan.spec_pool().token_bytes(t)[i] == v,
        decreases len - off,
    {
        if chan.read_buffer_byte(t, off) != v {
            return false;
        }
        off = off + 1;
    }
    true
}

/// Invert every byte of the buffer owned by `t`.
///
/// The buffer afterwards holds the exclusive-or of its old bytes with
/// `0xFF`; the bytes of every other allocated buffer are untouched.
pub fn invert_buffer(chan: &mut Channel, t: IoBuffer)
    requires
        old(chan).wf(),
        old(chan).spec_pool().spec_allocated(t),
    ensures
        final(chan).wf(),
        final(chan).transport_unchanged(*old(chan)),
        forall|t2: IoBuffer|
            final(chan).spec_pool().spec_allocated(t2) == old(chan).spec_pool().spec_allocated(t2),
        final(chan).spec_pool().token_bytes(t) == xor_mask(old(chan).spec_pool().token_bytes(t)),
        forall|t2: IoBuffer|
            old(chan).spec_pool().spec_allocated(t2) && tokens_disjoint(t, t2) ==> final(chan).spec_pool().token_bytes(t2) == old(chan).spec_pool().token_bytes(t2),
{
    let len = t.len_bytes();
    proof {
        chan.lemma_token_bytes_len(t);
    }
    let mut off: usize = 0;
    while off < len
        invariant
            off <= len,
            len == t.spec_len_bytes(),
            chan.wf(),
            chan.transport_unchanged(*old(chan)),
            chan.spec_pool().spec_allocated(t),
            chan.spec_pool().token_bytes(t).len() == len,
            old(chan).spec_pool().token_bytes(t).len() == len,
            forall|t2: IoBuffer|
                chan.spec_pool().spec_allocated(t2) == old(chan).spec_pool().spec_allocated(t2),
            forall|i: int|
                0 <= i < off ==> chan.spec_pool().token_bytes(t)[i] == (old(chan).spec_pool().token_bytes(t)[i] ^ 0xFF),
            forall|i: int|
                off <= i < len ==> chan.spec_pool().token_bytes(t)[i] == old(chan).spec_pool().token_bytes(t)[i],
            forall|t2: IoBuffer|
                old(chan).spec_pool().spec_allocated(t2) && tokens_disjoint(t, t2)
                    ==> chan.spec_pool().token_bytes(t2) == old(chan).spec_pool().token_bytes(t2),
        decreases len - off,
    {
        let b = chan.read_buffer_byte(t, off);
        let ghost mid = *chan;
        chan.write_buffer_byte(t, off, b ^ 0xFF);
        proof {
            assert forall|t2: IoBuffer|
                old(chan).spec_pool().spec_allocated(t2) && tokens_disjoint(
                    t,
                    t2,
                ) implies chan.spec_pool().token_bytes(t2) == old(chan).spec_pool().token_bytes(
                t2,
            ) by {
                assert(mid.spec_pool().token_bytes(t2) == old(chan).spec_pool().token_bytes(t2));
            }
        }
        off = off + 1;
    }
    proof {
        assert(chan.spec_pool().token_bytes(t) =~= xor_mask(old(chan).spec_pool().token_bytes(t)));
    }
}

/// Pattern round trip: a buffer of `k` blocks filled with the pattern byte
/// `k` and then inverted holds `k ^ 0xFF` in every byte, and its length is
/// `k` times the block size.
pub proof fn lemma_transform_round_trip(t: IoBuffer, bytes: Seq<u8>, k: u8)
    requires
        1 <= k <= 10,
        t.num_blocks == k,
        bytes == Seq::new((t.num_blocks * BLOCK_SIZE) as nat, |i: int| k),
    ensures
        bytes.len() == k * BLOCK_SIZE,
        xor_mask(bytes) == Seq::new((t.num_blocks * BLOCK_SIZE) as nat, |i: int| (k ^ 0xFF)),
{
    assert(xor_mask(bytes) =~= Seq::new((t.num_blocks * BLOCK_SIZE) as nat, |i: int| (k ^ 0xFF)));
}

} // verus!
