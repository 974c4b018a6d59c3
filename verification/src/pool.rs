//! A fixed-capacity arena of equal-size blocks shared by the two endpoints.
//!
//! Allocation hands out a contiguous run of blocks as an `IoBuffer` token;
//! when no free run of the requested length exists the pool refuses with the
//! transient `NotReady` instead of growing. Tokens are returned only by an
//! explicit free. Two distinct allocated tokens never overlap, so writing
//! through one token can never disturb the bytes of another.

use vstd::prelude::*;
use crate::entry::{IoBuffer, BLOCK_SIZE};
use crate::errors::ErrorCode;

verus! {

/// Whether the block runs of `a` and `b` share no block.
pub open spec fn tokens_disjoint(a: IoBuffer, b: IoBuffer) -> bool {
    a.start_block + a.num_blocks <= b.start_block || b.start_block + b.num_blocks <= a.start_block
}

/// The shared block arena and its allocation metadata.
pub struct BufferPool {
    data: Vec<u8>,
    block_free: Vec<bool>,
    run_len: Vec<u16>,
}

impl BufferPool {
    /// Number of blocks in the arena.
    pub closed spec fn spec_num_blocks(self) -> int {
        self.block_free@.len() as int
    }

    /// Whether block `j` is free.
    pub closed spec fn spec_block_free(self, j: int) -> bool {
        self.block_free@[j]
    }

    /// Whether `t` is a currently allocated token of this pool.
    pub closed spec fn spec_allocated(self, t: IoBuffer) -> bool {
        &&& t.num_blocks > 0
        &&& (t.start_block as int) < self.spec_num_blocks()
        &&& self.run_len@[t.start_block as int] == t.num_blocks
    }

    /// The bytes of the arena.
    pub closed spec fn spec_data(self) -> Seq<u8> {
        self.data@
    }

    /// The bytes currently owned by token `t`.
    pub open spec fn token_bytes(self, t: IoBuffer) -> Seq<u8> {
        self.spec_data().subrange(
            t.start_block * BLOCK_SIZE,
            t.start_block * BLOCK_SIZE + t.num_blocks * BLOCK_SIZE,
        )
    }

    /// Whether blocks `s .. s + n` are all free.
    pub open spec fn free_run(self, s: int, n: int) -> bool {
        &&& 0 <= s
        &&& s + n <= self.spec_num_blocks()
        &&& forall|j: int| s <= j < s + n ==> self.spec_block_free(j)
    }

    /// Whether some contiguous run of `n` free blocks exists.
    pub open spec fn has_free_run(self, n: int) -> bool {
        exists|s: int| self.free_run(s, n)
    }

    /// Internal consistency: parallel metadata lengths, every allocated run
    /// in bounds over busy blocks, and distinct runs disjoint.
    pub closed spec fn wf(self) -> bool {
        &&& 0 < self.block_free@.len() <= u16::MAX
        &&& self.run_len@.len() == self.block_free@.len()
        &&& self.data@.len() == self.block_free@.len() * BLOCK_SIZE
        &&& forall|i: int|
            0 <= i < self.run_len@.len() && self.run_len@[i] > 0 ==> i + self.run_len@[i]
                <= self.run_len@.len() && (forall|j: int|
                i <= j < i + self.run_len@[i] ==> !self.spec_block_free(j))
        &&& forall|i1: int, i2: int|
            0 <= i1 < self.run_len@.len() && 0 <= i2 < self.run_len@.len() && i1 != i2
                && self.run_len@[i1] > 0 && self.run_len@[i2] > 0 ==> i1 + self.run_len@[i1] <= i2
                || i2 + self.run_len@[i2] <= i1
    }

    /// A well-formed pool has between one and `u16::MAX` blocks.
    pub proof fn lemma_wf_nonempty(self)
        requires
            self.wf(),
        ensures
            0 < self.spec_num_blocks() <= u16::MAX,
    {
    }

    /// A new pool of `num_blocks` zeroed blocks, all free.
    pub fn new(num_blocks: u16) -> (r: BufferPool)
        requires
            num_blocks > 0,
        ensures
            r.wf(),
            r.spec_num_blocks() == num_blocks,
            forall|t: IoBuffer| !r.spec_allocated(t),
            forall|s: int, n: int| 0 <= s && s + n <= num_blocks ==> r.free_run(s, n),
    {
        let total_bytes: usize = (num_blocks as usize) * BLOCK_SIZE;
        let mut data: Vec<u8> = Vec::new();
        let mut i: usize = 0;
        while i < total_bytes
            invariant
                i <= total_bytes,
                data@.len() == i,
            decreases total_bytes - i,
        {
            data.push(0u8);
            i = i + 1;
        }
        let mut block_free: Vec<bool> = Vec::new();
        let mut run_len: Vec<u16> = Vec::new();
        let mut b: usize = 0;
        while b < num_blocks as usize
            invariant
                b <= num_blocks as usize,
                block_free@.len() == b,
                run_len@.len() == b,
                forall|j: int| 0 <= j < b ==> block_free@[j],
                forall|j: int| 0 <= j < b ==> run_len@[j] == 0,
            decreases num_blocks as usize - b,
        {
            block_free.push(true);
            run_len.push(0u16);
            b = b + 1;
        }
        BufferPool { data, block_free, run_len }
    }

    /// Number of blocks in the arena.
    pub fn num_blocks(&self) -> (r: u16)
        requires
            self.wf(),
        ensures
            r == self.spec_num_blocks(),
    {
        self.block_free.len() as u16
    }

    /// Whether blocks `s .. s + n` are all free; a linear scan.
    fn check_run(&self, s: usize, n: usize) -> (r: bool)
        requires
            self.wf(),
            s + n <= self.spec_num_blocks(),
        ensures
            r == self.free_run(s as int, n as int),
    {
        let mut j: usize = 0;
        while j < n
            invariant
                self.wf(),
                j <= n,
                s + n <= self.spec_num_blocks(),
                forall|k: int| s <= k < s + j ==> self.spec_block_free(k),
            decreases n - j,
        {
            if !self.block_free[s + j] {
                proof {
                    assert(!self.spec_block_free((s + j) as int));
                }
                return false;
            }
            j = j + 1;
        }
        true
    }

    /// Allocate a contiguous run of `num_blocks` blocks, first fit.
    ///
    /// Succeeds exactly when some free run of that length exists; an
    /// exhausted pool refuses with the transient `NotReady` and is left
    /// untouched. A fresh token never overlaps any token still allocated,
    /// and the arena's bytes are not changed by allocation.
    pub fn allocate(&mut self, num_blocks: u16) -> (r: Result<IoBuffer, ErrorCode>)
        requires
            old(self).wf(),
            num_blocks > 0,
        ensures
            final(self).wf(),
            final(self).spec_num_blocks() == old(self).spec_num_blocks(),
            final(self).spec_data() == old(self).spec_data(),
            r is Ok <==> old(self).has_free_run(num_blocks as int),
            r is Err ==> *final(self) == *old(self) && r == Err::<IoBuffer, ErrorCode>(
                ErrorCode::NotReady,
            ),
            forall|n: int|
                #[trigger] final(self).has_free_run(n) ==> old(self).has_free_run(n),
            r is Ok ==> {
                let t = r->Ok_0;
                &&& t.num_blocks == num_blocks
                &&& final(self).spec_allocated(t)
                &&& old(self).free_run(t.start_block as int, t.num_blocks as int)
                &&& forall|t2: IoBuffer|
                    #[trigger] old(self).spec_allocated(t2) ==> final(self).spec_allocated(t2)
                        && tokens_disjoint(t, t2)
                &&& forall|t2: IoBuffer|
                    #[trigger] final(self).spec_allocated(t2) && t2 != t ==> old(self).spec_allocated(t2)
            },
    {
        let total = self.block_free.len();
        let n = num_blocks as usize;
        if n > total {
            proof {
                assert forall|s: int| !old(self).free_run(s, num_blocks as int) by {}
            }
            return Err(ErrorCode::NotReady);
        }
        let mut s: usize = 0;
        while s + n <= total
            invariant
                self == old(self),
                self.wf(),
                n == num_blocks as usize,
                0 < n <= total,
                total == self.spec_num_blocks(),
                s + n <= total + 1,
                forall|s2: int| 0 <= s2 < s ==> !self.free_run(s2, n as int),
            decreases total - s,
        {
            if self.check_run(s, n) {
                // Mark the run busy and record its length at its start.
                let mut j: usize = 0;
                while j < n
                    invariant
                        j <= n,
                        s + n <= total,
                        total == self.block_free@.len(),
                        self.block_free@.len() == old(self).block_free@.len(),
                        self.run_len == old(self).run_len,
                        self.data == old(self).data,
                        forall|k: int| s <= k < s + j ==> !self.block_free@[k],
                        forall|k: int|
                            0 <= k < self.block_free@.len() && !(s <= k < s + j)
                                ==> self.block_free@[k] == old(self).block_free@[k],
                    decreases n - j,
                {
                    self.block_free[s + j] = false;
                    j = j + 1;
                }
                self.run_len[s] = num_blocks;
                let t = IoBuffer { start_block: s as u16, num_blocks };
                proof {
                    self.lemma_alloc_wf(*old(self), t);
                    // Allocation only turns free blocks busy, so any free
                    // run afterwards was already free before.
                    assert forall|rn: int| #[trigger] self.has_free_run(rn) implies old(
                        self,
                    ).has_free_run(rn) by {
                        let s2 = choose|s2: int| self.free_run(s2, rn);
                        assert forall|k: int| s2 <= k < s2 + rn implies old(
                            self,
                        ).spec_block_free(k) by {
                            assert(self.spec_block_free(k));
                            assert(!(s <= k < s + n));
                            assert(self.block_free@[k] == old(self).block_free@[k]);
                        }
                        assert(old(self).free_run(s2, rn));
                    }
                }
                return Ok(t);
            }
            s = s + 1;
        }
        proof {
            assert forall|s2: int| !old(self).free_run(s2, num_blocks as int) by {
                if old(self).free_run(s2, num_blocks as int) {
                    assert(0 <= s2 < s);
                }
            }
        }
        Err(ErrorCode::NotReady)
    }

    /// Restore well-formedness and the allocation frame after `alloc`
    /// marked the fresh run busy and recorded its length.
    proof fn lemma_alloc_wf(&self, prev: BufferPool, t: IoBuffer)
        requires
            prev.wf(),
            t.num_blocks > 0,
            prev.free_run(t.start_block as int, t.num_blocks as int),
            self.run_len@ == prev.run_len@.update(t.start_block as int, t.num_blocks),
            self.block_free@.len() == prev.block_free@.len(),
            self.data@ == prev.data@,
            forall|k: int|
                t.start_block <= k < t.start_block + t.num_blocks ==> !self.block_free@[k],
            forall|k: int|
                0 <= k < self.block_free@.len() && !(t.start_block <= k < t.start_block
                    + t.num_blocks) ==> self.block_free@[k] == prev.block_free@[k],
        ensures
            self.wf(),
            self.spec_allocated(t),
            forall|t2: IoBuffer|
                prev.spec_allocated(t2) ==> self.spec_allocated(t2) && tokens_disjoint(t, t2),
            forall|t2: IoBuffer| self.spec_allocated(t2) && t2 != t ==> prev.spec_allocated(t2),
    {
        let st = t.start_block as int;
        let nb = t.num_blocks as int;
        // Any run allocated before is disjoint from the fresh run: its blocks
        // were busy while the fresh run's blocks were free.
        assert forall|i: int|
            0 <= i < prev.run_len@.len() && prev.run_len@[i] > 0 && i != st implies i
            + prev.run_len@[i] <= st || st + nb <= i by {
            if !(i + prev.run_len@[i] <= st || st + nb <= i) {
                let j = if i >= st { i } else { st };
                assert(i <= j < i + prev.run_len@[i]);
                assert(st <= j < st + nb);
                assert(!prev.spec_block_free(j));
                assert(prev.spec_block_free(j));
            }
        }
        assert forall|i: int|
            0 <= i < self.run_len@.len() && self.run_len@[i] > 0 implies i + self.run_len@[i]
            <= self.run_len@.len() && (forall|j: int|
            i <= j < i + self.run_len@[i] ==> !self.spec_block_free(j)) by {
            if i == st {
                assert forall|j: int| i <= j < i + self.run_len@[i] implies !self.spec_block_free(
                    j,
                ) by {}
            } else {
                assert(prev.run_len@[i] == self.run_len@[i]);
                assert forall|j: int| i <= j < i + self.run_len@[i] implies !self.spec_block_free(
                    j,
                ) by {
                    assert(!prev.spec_block_free(j));
                    if st <= j < st + nb {
                    } else {
                        assert(self.block_free@[j] == prev.block_free@[j]);
                    }
                }
            }
        }
        assert forall|t2: IoBuffer| prev.spec_allocated(t2) implies self.spec_allocated(t2)
            && tokens_disjoint(t, t2) by {
            let i2 = t2.start_block as int;
            assert(prev.run_len@[i2] == t2.num_blocks);
            if i2 == st {
                assert(!prev.spec_block_free(st));
                assert(prev.spec_block_free(st));
            }
            assert(self.run_len@[i2] == prev.run_len@[i2]);
            assert(i2 + prev.run_len@[i2] <= st || st + nb <= i2);
        }
        assert forall|t2: IoBuffer| self.spec_allocated(t2) && t2 != t implies prev.spec_allocated(
            t2,
        ) by {
            let i2 = t2.start_block as int;
            if i2 == st {
                assert(t2.num_blocks == self.run_len@[st]);
                assert(t2 == t);
            } else {
                assert(self.run_len@[i2] == prev.run_len@[i2]);
            }
        }
    }

    /// Return an allocated token's blocks to the free pool.
    ///
    /// Freeing a token that is not currently allocated — a double free
    /// included — is a protocol violation, excluded by the precondition
    /// rather than surfaced as a recoverable error. Every other token stays
    /// allocated, with its bytes untouched.
    pub fn free(&mut self, t: IoBuffer)
        requires
            old(self).wf(),
            old(self).spec_allocated(t),
        ensures
            final(self).wf(),
            final(self).spec_num_blocks() == old(self).spec_num_blocks(),
            final(self).spec_data() == old(self).spec_data(),
            !final(self).spec_allocated(t),
            final(self).free_run(t.start_block as int, t.num_blocks as int),
            forall|t2: IoBuffer|
                old(self).spec_allocated(t2) && t2 != t ==> final(self).spec_allocated(t2),
            forall|t2: IoBuffer| final(self).spec_allocated(t2) ==> old(self).spec_allocated(t2)
                && t2 != t,
    {
        let s = t.start_block as usize;
        let n = t.num_blocks as usize;
        self.run_len[s] = 0;
        let mut j: usize = 0;
        while j < n
            invariant
                j <= n,
                s == t.start_block as usize,
                n == t.num_blocks as usize,
                s + n <= self.block_free@.len(),
                self.block_free@.len() == old(self).block_free@.len(),
                self.run_len@ == old(self).run_len@.update(s as int, 0u16),
                self.data == old(self).data,
                forall|k: int| s <= k < s + j ==> self.block_free@[k],
                forall|k: int|
                    0 <= k < self.block_free@.len() && !(s <= k < s + j) ==> self.block_free@[k]
                        == old(self).block_free@[k],
            decreases n - j,
        {
            self.block_free[s + j] = true;
            j = j + 1;
        }
        proof {
            self.lemma_free_wf(*old(self), t);
        }
    }

    /// Restore well-formedness and the allocation frame after `free`
    /// cleared the run's length and marked its blocks free.
    proof fn lemma_free_wf(&self, prev: BufferPool, t: IoBuffer)
        requires
            prev.wf(),
            prev.spec_allocated(t),
            self.run_len@ == prev.run_len@.update(t.start_block as int, 0u16),
            self.block_free@.len() == prev.block_free@.len(),
            self.data@ == prev.data@,
            forall|k: int|
                t.start_block <= k < t.start_block + t.num_blocks ==> self.block_free@[k],
            forall|k: int|
                0 <= k < self.block_free@.len() && !(t.start_block <= k < t.start_block
                    + t.num_blocks) ==> self.block_free@[k] == prev.block_free@[k],
        ensures
            self.wf(),
            !self.spec_allocated(t),
            self.free_run(t.start_block as int, t.num_blocks as int),
            forall|t2: IoBuffer| prev.spec_allocated(t2) && t2 != t ==> self.spec_allocated(t2),
            forall|t2: IoBuffer| self.spec_allocated(t2) ==> prev.spec_allocated(t2) && t2 != t,
    {
        let st = t.start_block as int;
        let nb = t.num_blocks as int;
        assert forall|i: int|
            0 <= i < self.run_len@.len() && self.run_len@[i] > 0 implies i + self.run_len@[i]
            <= self.run_len@.len() && (forall|j: int|
            i <= j < i + self.run_len@[i] ==> !self.spec_block_free(j)) by {
            assert(i != st);
            assert(prev.run_len@[i] == self.run_len@[i]);
            // The freed run and run `i` were disjoint, so run `i`'s blocks
            // kept their busy marks.
            assert(i + prev.run_len@[i] <= st || st + nb <= i);
            assert forall|j: int| i <= j < i + self.run_len@[i] implies !self.spec_block_free(
                j,
            ) by {
                assert(!prev.spec_block_free(j));
                assert(!(st <= j < st + nb));
                assert(self.block_free@[j] == prev.block_free@[j]);
            }
        }
    }

    /// Read the byte at `offset` within the run owned by `t`.
    pub fn read_byte(&self, t: IoBuffer, offset: usize) -> (r: u8)
        requires
            self.wf(),
            self.spec_allocated(t),
            offset < t.spec_len_bytes(),
        ensures
            r == self.token_bytes(t)[offset as int],
    {
        let idx = (t.start_block as usize) * BLOCK_SIZE + offset;
        self.data[idx]
    }

    /// Write `v` at `offset` within the run owned by `t`.
    ///
    /// Only that one byte of the arena changes, so the bytes of every other
    /// allocated token are untouched.
    pub fn write_byte(&mut self, t: IoBuffer, offset: usize, v: u8)
        requires
            old(self).wf(),
            old(self).spec_allocated(t),
            offset < t.spec_len_bytes(),
        ensures
            final(self).wf(),
            final(self).spec_num_blocks() == old(self).spec_num_blocks(),
            forall|t2: IoBuffer| final(self).spec_allocated(t2) == old(self).spec_allocated(t2),
            final(self).token_bytes(t) == old(self).token_bytes(t).update(offset as int, v),
            forall|t2: IoBuffer|
                old(self).spec_allocated(t2) && tokens_disjoint(t, t2) ==> final(self).token_bytes(
                    t2,
                ) == old(self).token_bytes(t2),
    {
        let idx = (t.start_block as usize) * BLOCK_SIZE + offset;
        self.data[idx] = v;
        proof {
            assert forall|j: int| 0 <= j < self.block_free@.len() implies self.spec_block_free(j)
                == old(self).spec_block_free(j) by {}
            assert(self.wf());
            assert(self.token_bytes(t) =~= old(self).token_bytes(t).update(offset as int, v));
            assert forall|t2: IoBuffer|
                old(self).spec_allocated(t2) && tokens_disjoint(t, t2) implies self.token_bytes(t2)
                =~= old(self).token_bytes(t2) by {}
        }
    }

    /// Fill every byte of the run owned by `t` with `v`.
    ///
    /// The bytes of every other allocated token are untouched.
    pub fn fill(&mut self, t: IoBuffer, v: u8)
        requires
            old(self).wf(),
            old(self).spec_allocated(t),
        ensures
            final(self).wf(),
            final(self).spec_num_blocks() == old(self).spec_num_blocks(),
            forall|t2: IoBuffer| final(self).spec_allocated(t2) == old(self).spec_allocated(t2),
            final(self).token_bytes(t) == Seq::new(
                (t.num_blocks * BLOCK_SIZE) as nat,
                |i: int| v,
            ),
            forall|t2: IoBuffer|
                old(self).spec_allocated(t2) && tokens_disjoint(t, t2) ==> final(self).token_bytes(
                    t2,
                ) == old(self).token_bytes(t2),
    {
        let len = t.len_bytes();
        let mut off: usize = 0;
        while off < len
            invariant
                off <= len,
                len == t.spec_len_bytes(),
                self.wf(),
                self.spec_allocated(t),
                self.spec_num_blocks() == old(self).spec_num_blocks(),
                forall|t2: IoBuffer| self.spec_allocated(t2) == old(self).spec_allocated(t2),
                forall|i: int| 0 <= i < off ==> self.token_bytes(t)[i] == v,
                forall|i: int| off <= i < len ==> self.token_bytes(t)[i] == old(self).token_bytes(
                    t,
                )[i],
                forall|t2: IoBuffer|
                    old(self).spec_allocated(t2) && tokens_disjoint(t, t2) ==> self.token_bytes(t2)
                        == old(self).token_bytes(t2),
            decreases len - off,
        {
            let ghost mid = *self;
            self.write_byte(t, off, v);
            proof {
                assert forall|t2: IoBuffer|
                    old(self).spec_allocated(t2) && tokens_disjoint(t, t2) implies self.token_bytes(
                    t2,
                ) == old(self).token_bytes(t2) by {
                    assert(mid.token_bytes(t2) == old(self).token_bytes(t2));
                }
            }
            off = off + 1;
        }
        proof {
            assert(self.token_bytes(t) =~= Seq::new((t.num_blocks * BLOCK_SIZE) as nat, |i: int| v));
        }
    }

    /// Copy the bytes of the run owned by `t` into a fresh vector.
    pub fn token_to_vec(&self, t: IoBuffer) -> (r: Vec<u8>)
        requires
            self.wf(),
            self.spec_allocated(t),
        ensures
            r@ == self.token_bytes(t),
    {
        let len = t.len_bytes();
        let mut r: Vec<u8> = Vec::new();
        let mut off: usize = 0;
        while off < len
            invariant
                off <= len,
                len == t.spec_len_bytes(),
                self.wf(),
                self.spec_allocated(t),
                r@.len() == off,
                forall|i: int| 0 <= i < off ==> r@[i] == self.token_bytes(t)[i],
            decreases len - off,
        {
            r.push(self.read_byte(t, off));
            off = off + 1;
        }
        proof {
            assert(r@ =~= self.token_bytes(t));
        }
        r
    }

    /// The bytes of an allocated token are exactly its blocks' worth.
    pub proof fn lemma_token_bytes_len(self, t: IoBuffer)
        requires
            self.wf(),
            self.spec_allocated(t),
        ensures
            self.token_bytes(t).len() == t.spec_len_bytes(),
            t.start_block * BLOCK_SIZE + t.num_blocks * BLOCK_SIZE <= self.spec_data().len(),
    {
        assert(t.start_block + t.num_blocks <= self.run_len@.len());
    }

    /// Two distinct allocated tokens of a well-formed pool never overlap.
    pub proof fn lemma_allocated_disjoint(self, t1: IoBuffer, t2: IoBuffer)
        requires
            self.wf(),
            self.spec_allocated(t1),
            self.spec_allocated(t2),
            t1 != t2,
        ensures
            tokens_disjoint(t1, t2),
    {
        if t1.start_block == t2.start_block {
            assert(t1.num_blocks == t2.num_blocks);
        }
    }
}

} // verus!
