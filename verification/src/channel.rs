//! The shared channel: a submission ring, a completion ring and a buffer
//! pool, with the accounting that ties them together.
//!
//! The client submits entries and polls completions; the server dequeues
//! submissions and writes completions carrying the same correlation `id`.
//! The channel's well-formedness carries a conservation ledger: the multiset
//! of ids ever submitted splits exactly into the ids still in the submission
//! ring, those held by the server, those in the completion ring, and those
//! already returned to the client. Once the channel reports empty, the ids
//! received are therefore a permutation of the ids submitted — in
//! particular, their sums agree.

use vstd::prelude::*;
use crate::entry::{IoBuffer, QueueEntry};
use crate::errors::ErrorCode;
use crate::pool::BufferPool;
use crate::ring::Ring;

verus! {

/// Sum of a sequence of correlation ids, as an unbounded integer.
pub open spec fn sum_ids(s: Seq<u64>) -> int
    decreases s.len(),
{
    if s.len() == 0 {
        0
    } else {
        s[0] + sum_ids(s.drop_first())
    }
}

/// The ids carried by a sequence of entries, in order.
pub open spec fn ids_of(s: Seq<QueueEntry>) -> Seq<u64> {
    Seq::new(s.len(), |i: int| s[i].id)
}

/// Appending an id adds it to the sum.
pub proof fn lemma_sum_push(s: Seq<u64>, x: u64)
    ensures
        sum_ids(s.push(x)) == sum_ids(s) + x,
    decreases s.len(),
{
    let p = s.push(x);
    if s.len() == 0 {
        assert(p.len() == 1);
        assert(p[0] == x);
        assert(p.drop_first() =~= Seq::<u64>::empty());
        assert(sum_ids(p) == x + sum_ids(Seq::<u64>::empty()));
    } else {
        assert(p[0] == s[0]);
        assert(p.drop_first() =~= s.drop_first().push(x));
        lemma_sum_push(s.drop_first(), x);
        assert(sum_ids(p) == s[0] + sum_ids(s.drop_first().push(x)));
    }
}

/// Removing the id at `i` subtracts it from the sum.
pub proof fn lemma_sum_remove(s: Seq<u64>, i: int)
    requires
        0 <= i < s.len(),
    ensures
        sum_ids(s.remove(i)) == sum_ids(s) - s[i],
    decreases s.len(),
{
    if i == 0 {
        assert(s.remove(0) =~= s.drop_first());
    } else {
        assert(s.remove(i).drop_first() =~= s.drop_first().remove(i - 1));
        lemma_sum_remove(s.drop_first(), i - 1);
    }
}

/// The connection life cycle of a channel.
///
/// A channel is created listening, becomes connected when the server accepts
/// its one peer, and is closed when either endpoint drops its mapping; after
/// that, ring operations fail terminally with `PeerGone`, never `NotReady`.
#[derive(Clone, Copy, Debug, PartialEq, Eq, Structural)]
pub enum ChannelState {
    Listening,
    Connected,
    Closed,
}

/// The shared-memory segment both endpoints map: two rings, one pool.
pub struct Channel {
    state: ChannelState,
    sub_ring: Ring,
    comp_ring: Ring,
    pool: BufferPool,
    name: Ghost<Seq<char>>,
    submitted: Ghost<Seq<u64>>,
    received: Ghost<Seq<u64>>,
    held: Ghost<Seq<u64>>,
}

impl Channel {
    /// The connection state.
    pub closed spec fn spec_state(self) -> ChannelState {
        self.state
    }

    /// The name the channel was created under.
    pub closed spec fn spec_name(self) -> Seq<char> {
        self.name@
    }

    /// Entries currently queued in the submission ring, oldest first.
    pub closed spec fn spec_sub(self) -> Seq<QueueEntry> {
        self.sub_ring@
    }

    /// Entries currently queued in the completion ring, oldest first.
    pub closed spec fn spec_comp(self) -> Seq<QueueEntry> {
        self.comp_ring@
    }

    /// Capacity of the submission ring.
    pub closed spec fn spec_sub_capacity(self) -> int {
        self.sub_ring.spec_capacity()
    }

    /// Capacity of the completion ring.
    pub closed spec fn spec_comp_capacity(self) -> int {
        self.comp_ring.spec_capacity()
    }

    /// The buffer pool backing zero-copy payloads.
    pub closed spec fn spec_pool(self) -> BufferPool {
        self.pool
    }

    /// Every id ever submitted, in submission order.
    pub closed spec fn spec_submitted(self) -> Seq<u64> {
        self.submitted@
    }

    /// Every id ever returned to the client by a completion poll, in order.
    pub closed spec fn spec_received(self) -> Seq<u64> {
        self.received@
    }

    /// Ids dequeued by the server and not yet completed, in dequeue order.
    pub closed spec fn spec_held(self) -> Seq<u64> {
        self.held@
    }

    /// Number of entries submitted and not yet returned to the client.
    pub open spec fn spec_outstanding(self) -> int {
        self.spec_submitted().len() - self.spec_received().len()
    }

    /// Well-formedness: both rings and the pool are consistent, and the
    /// conservation ledger accounts for every submitted id exactly once.
    pub closed spec fn wf(self) -> bool {
        &&& self.sub_ring.wf()
        &&& self.comp_ring.wf()
        &&& self.pool.wf()
        &&& self.submitted@.len() == self.sub_ring.spec_pushed()
        &&& self.received@.len() == self.comp_ring.spec_popped()
        &&& self.submitted@.len() == self.received@.len() + self.held@.len()
            + self.sub_ring@.len() + self.comp_ring@.len()
        &&& sum_ids(self.submitted@) == sum_ids(self.received@) + sum_ids(self.held@) + sum_ids(
            ids_of(self.sub_ring@),
        ) + sum_ids(ids_of(self.comp_ring@))
        &&& self.submitted@.to_multiset() == self.received@.to_multiset().add(
            self.held@.to_multiset(),
        ).add(ids_of(self.sub_ring@).to_multiset()).add(ids_of(self.comp_ring@).to_multiset())
    }

    /// A fresh listening channel with the given ring capacities and pool
    /// size. Ring capacities must be powers of two.
    pub fn new(
        sub_capacity: usize,
        comp_capacity: usize,
        pool_blocks: u16,
        Ghost(name): Ghost<Seq<char>>,
    ) -> (r: Channel)
        requires
            0 < sub_capacity <= crate::ring::MAX_RING_CAPACITY,
            0 < comp_capacity <= crate::ring::MAX_RING_CAPACITY,
            crate::ring::is_power_of_two(sub_capacity as int),
            crate::ring::is_power_of_two(comp_capacity as int),
            pool_blocks > 0,
        ensures
            r.wf(),
            r.spec_state() is Listening,
            r.spec_name() == name,
            r.spec_sub() == Seq::<QueueEntry>::empty(),
            r.spec_comp() == Seq::<QueueEntry>::empty(),
            r.spec_sub_capacity() == sub_capacity,
            r.spec_comp_capacity() == comp_capacity,
            r.spec_submitted() == Seq::<u64>::empty(),
            r.spec_received() == Seq::<u64>::empty(),
            r.spec_held() == Seq::<u64>::empty(),
            r.spec_pool().spec_num_blocks() == pool_blocks,
            forall|t: IoBuffer| !r.spec_pool().spec_allocated(t),
            forall|s: int, n: int| 0 <= s && s + n <= pool_blocks ==> r.spec_pool().free_run(s, n),
    {
        let c = Channel {
            state: ChannelState::Listening,
            sub_ring: Ring::new(sub_capacity),
            comp_ring: Ring::new(comp_capacity),
            pool: BufferPool::new(pool_blocks),
            name: Ghost(name),
            submitted: Ghost(Seq::empty()),
            received: Ghost(Seq::empty()),
            held: Ghost(Seq::empty()),
        };
        proof {
            broadcast use vstd::seq_lib::group_to_multiset_ensures;
            broadcast use vstd::multiset::group_multiset_axioms;
            assert(ids_of(c.sub_ring@) =~= Seq::<u64>::empty());
            assert(ids_of(c.comp_ring@) =~= Seq::<u64>::empty());
            vstd::multiset::lemma_multiset_empty_len(Seq::<u64>::empty().to_multiset());
            assert(c.submitted@.to_multiset() =~= c.received@.to_multiset().add(
                c.held@.to_multiset(),
            ).add(ids_of(c.sub_ring@).to_multiset()).add(ids_of(c.comp_ring@).to_multiset()));
        }
        c
    }

    /// Mark the channel connected; called by the server's accept.
    pub(crate) fn set_connected(&mut self)
        requires
            old(self).wf(),
            old(self).spec_state() is Listening,
        ensures
            final(self).wf(),
            final(self).spec_state() is Connected,
            final(self).only_state_changed(*old(self)),
    {
        self.state = ChannelState::Connected;
    }

    /// Tear the channel down; either endpoint dropping its mapping does this.
    /// After this, every ring operation fails with the terminal `PeerGone`.
    pub fn close(&mut self)
        requires
            old(self).wf(),
        ensures
            final(self).wf(),
            final(self).spec_state() is Closed,
            final(self).only_state_changed(*old(self)),
    {
        self.state = ChannelState::Closed;
    }

    /// Client side: allocate a run of `num_blocks` pool blocks.
    ///
    /// Pool exhaustion is the transient `NotReady`, never a blocking wait; a
    /// closed channel fails terminally with `PeerGone`.
    pub fn alloc_buffer(&mut self, num_blocks: u16) -> (r: Result<IoBuffer, ErrorCode>)
        requires
            old(self).wf(),
            num_blocks > 0,
        ensures
            final(self).wf(),
            final(self).transport_unchanged(*old(self)),
            final(self).spec_pool().spec_data() == old(self).spec_pool().spec_data(),
            old(self).spec_state() is Closed ==> r == Err::<IoBuffer, ErrorCode>(
                ErrorCode::PeerGone,
            ) && *final(self) == *old(self),
            forall|n: int|
                #[trigger] final(self).spec_pool().has_free_run(n) ==> old(
                    self,
                ).spec_pool().has_free_run(n),
            !(old(self).spec_state() is Closed) ==> {
                &&& r is Ok <==> old(self).spec_pool().has_free_run(num_blocks as int)
                &&& r is Err ==> *final(self) == *old(self) && r == Err::<IoBuffer, ErrorCode>(
                    ErrorCode::NotReady,
                )
                &&& r is Ok ==> {
                    let t = r->Ok_0;
                    &&& t.num_blocks == num_blocks
                    &&& final(self).spec_pool().spec_allocated(t)
                    &&& forall|t2: IoBuffer|
                        #[trigger] old(self).spec_pool().spec_allocated(t2) ==> final(self).spec_pool().spec_allocated(t2) && crate::pool::tokens_disjoint(t, t2)
                    &&& forall|t2: IoBuffer|
                        #[trigger] final(self).spec_pool().spec_allocated(t2) && t2 != t ==> old(self).spec_pool().spec_allocated(t2)
                }
            },
    {
        if matches!(self.state, ChannelState::Closed) {
            return Err(ErrorCode::PeerGone);
        }
        let r = self.pool.allocate(num_blocks);
        proof {
            if r is Ok {
                let t = r->Ok_0;
                assert forall|t2: IoBuffer|
                    old(self).spec_pool().spec_allocated(t2) implies self.spec_pool().spec_allocated(
                    t2,
                ) && crate::pool::tokens_disjoint(t, t2) by {
                    assert(old(self).pool.spec_allocated(t2));
                }
            }
        }
        r
    }

    /// Client side: return a token it owns to the pool.
    ///
    /// Freeing a token that is not currently allocated is a protocol
    /// violation excluded by the precondition, not a recoverable condition.
    pub fn free_buffer(&mut self, t: IoBuffer) -> (r: Result<(), ErrorCode>)
        requires
            old(self).wf(),
            old(self).spec_pool().spec_allocated(t),
        ensures
            final(self).wf(),
            final(self).transport_unchanged(*old(self)),
            final(self).spec_pool().spec_data() == old(self).spec_pool().spec_data(),
            old(self).spec_state() is Closed ==> r == Err::<(), ErrorCode>(ErrorCode::PeerGone)
                && *final(self) == *old(self),
            !(old(self).spec_state() is Closed) ==> {
                &&& r == Ok::<(), ErrorCode>(())
                &&& !final(self).spec_pool().spec_allocated(t)
                &&& forall|t2: IoBuffer|
                    old(self).spec_pool().spec_allocated(t2) && t2 != t ==> final(self).spec_pool().spec_allocated(t2)
                &&& forall|t2: IoBuffer|
                    final(self).spec_pool().spec_allocated(t2) ==> old(self).spec_pool().spec_allocated(t2) && t2 != t
            },
    {
        if matches!(self.state, ChannelState::Closed) {
            return Err(ErrorCode::PeerGone);
        }
        self.pool.free(t);
        Ok(())
    }

    /// Everything except the connection state is unchanged.
    pub open spec fn only_state_changed(self, prev: Channel) -> bool {
        &&& self.spec_name() == prev.spec_name()
        &&& self.spec_sub() == prev.spec_sub()
        &&& self.spec_comp() == prev.spec_comp()
        &&& self.spec_sub_capacity() == prev.spec_sub_capacity()
        &&& self.spec_comp_capacity() == prev.spec_comp_capacity()
        &&& self.spec_pool() == prev.spec_pool()
        &&& self.spec_submitted() == prev.spec_submitted()
        &&& self.spec_received() == prev.spec_received()
        &&& self.spec_held() == prev.spec_held()
    }

    /// Everything but the pool and the state is unchanged: rings, ledger and
    /// name. Buffer management never moves entries.
    pub open spec fn transport_unchanged(self, prev: Channel) -> bool {
        &&& self.spec_state() == prev.spec_state()
        &&& self.spec_name() == prev.spec_name()
        &&& self.spec_sub() == prev.spec_sub()
        &&& self.spec_comp() == prev.spec_comp()
        &&& self.spec_sub_capacity() == prev.spec_sub_capacity()
        &&& self.spec_comp_capacity() == prev.spec_comp_capacity()
        &&& self.spec_submitted() == prev.spec_submitted()
        &&& self.spec_received() == prev.spec_received()
        &&& self.spec_held() == prev.spec_held()
    }

    /// Read one byte of a token's run.
    pub fn read_buffer_byte(&self, t: IoBuffer, offset: usize) -> (r: u8)
        requires
            self.wf(),
            self.spec_pool().spec_allocated(t),
            offset < t.spec_len_bytes(),
        ensures
            r == self.spec_pool().token_bytes(t)[offset as int],
    {
        self.pool.read_byte(t, offset)
    }

    /// Write one byte of a token's run; no other token's bytes change.
    pub fn write_buffer_byte(&mut self, t: IoBuffer, offset: usize, v: u8)
        requires
            old(self).wf(),
            old(self).spec_pool().spec_allocated(t),
            offset < t.spec_len_bytes(),
        ensures
            final(self).wf(),
            final(self).transport_unchanged(*old(self)),
            forall|t2: IoBuffer|
                final(self).spec_pool().spec_allocated(t2) == old(self).spec_pool().spec_allocated(
                    t2,
                ),
            final(self).spec_pool().token_bytes(t) == old(self).spec_pool().token_bytes(t).update(
                offset as int,
                v,
            ),
            forall|t2: IoBuffer|
                old(self).spec_pool().spec_allocated(t2) && crate::pool::tokens_disjoint(t, t2)
                    ==> final(self).spec_pool().token_bytes(t2) == old(self).spec_pool().token_bytes(
                    t2,
                ),
    {
        self.pool.write_byte(t, offset, v)
    }

    /// Fill a token's run with one byte value; no other token's bytes change.
    pub fn fill_buffer(&mut self, t: IoBuffer, v: u8)
        requires
            old(self).wf(),
            old(self).spec_pool().spec_allocated(t),
        ensures
            final(self).wf(),
            final(self).transport_unchanged(*old(self)),
            forall|t2: IoBuffer|
                final(self).spec_pool().spec_allocated(t2) == old(self).spec_pool().spec_allocated(
                    t2,
                ),
            final(self).spec_pool().token_bytes(t) == Seq::new(
                (t.num_blocks * crate::entry::BLOCK_SIZE) as nat,
                |i: int| v,
            ),
            forall|t2: IoBuffer|
                old(self).spec_pool().spec_allocated(t2) && crate::pool::tokens_disjoint(t, t2)
                    ==> final(self).spec_pool().token_bytes(t2) == old(self).spec_pool().token_bytes(
                    t2,
                ),
    {
        self.pool.fill(t, v)
    }

    /// Copy a token's bytes out into a fresh vector.
    pub fn buffer_to_vec(&self, t: IoBuffer) -> (r: Vec<u8>)
        requires
            self.wf(),
            self.spec_pool().spec_allocated(t),
        ensures
            r@ == self.spec_pool().token_bytes(t),
    {
        self.pool.token_to_vec(t)
    }

    /// Client side: enqueue a submission.
    ///
    /// `NotReady` means the submission ring is full: the caller must drain
    /// completions or wait before retrying, and nothing was enqueued.
    /// Success only guarantees the entry is visible to the server's reader,
    /// not that the server has observed it.
    pub fn submit_sqe(&mut self, e: QueueEntry) -> (r: Result<(), ErrorCode>)
        requires
            old(self).wf(),
            old(self).spec_submitted().len() < u64::MAX,
        ensures
            final(self).wf(),
            final(self).spec_state() == old(self).spec_state(),
            final(self).spec_name() == old(self).spec_name(),
            final(self).spec_pool() == old(self).spec_pool(),
            final(self).spec_sub_capacity() == old(self).spec_sub_capacity(),
            final(self).spec_comp_capacity() == old(self).spec_comp_capacity(),
            old(self).spec_state() is Closed ==> r == Err::<(), ErrorCode>(ErrorCode::PeerGone)
                && *final(self) == *old(self),
            !(old(self).spec_state() is Closed) ==> {
                &&& r is Ok <==> old(self).spec_sub().len() < old(self).spec_sub_capacity()
                &&& r is Err ==> *final(self) == *old(self) && r == Err::<(), ErrorCode>(
                    ErrorCode::NotReady,
                )
                &&& r is Ok ==> final(self).spec_sub() == old(self).spec_sub().push(e) && final(self).spec_submitted() == old(self).spec_submitted().push(e.id) && final(self).spec_comp() == old(self).spec_comp() && final(self).spec_received() == old(self).spec_received() && final(self).spec_held() == old(self).spec_held()
            },
    {
        if matches!(self.state, ChannelState::Closed) {
            return Err(ErrorCode::PeerGone);
        }
        proof {
            self.sub_ring.lemma_wf_bounds();
        }
        let res = self.sub_ring.push(e);
        match res {
            Ok(()) => {
                self.submitted = Ghost(self.submitted@.push(e.id));
                proof {
                    broadcast use vstd::seq_lib::group_to_multiset_ensures;
                    broadcast use vstd::multiset::group_multiset_axioms;
                    lemma_sum_push(old(self).submitted@, e.id);
                    lemma_sum_push(ids_of(old(self).sub_ring@), e.id);
                    assert(ids_of(self.sub_ring@) =~= ids_of(old(self).sub_ring@).push(e.id));
                    assert(old(self).submitted@.push(e.id).to_multiset() =~= old(
                        self,
                    ).submitted@.to_multiset().insert(e.id));
                    assert(ids_of(old(self).sub_ring@).push(e.id).to_multiset() =~= ids_of(
                        old(self).sub_ring@,
                    ).to_multiset().insert(e.id));
                    assert(self.submitted@.to_multiset() =~= self.received@.to_multiset().add(
                        self.held@.to_multiset(),
                    ).add(ids_of(self.sub_ring@).to_multiset()).add(
                        ids_of(self.comp_ring@).to_multiset(),
                    ));
                }
                Ok(())
            },
            Err(code) => Err(code),
        }
    }

    /// Client side: poll the next completion without blocking.
    ///
    /// `NotReady` means no completion is pending. Completions arrive in the
    /// order the server wrote them; the caller matches them by `id`.
    pub fn get_cqe(&mut self) -> (r: Result<QueueEntry, ErrorCode>)
        requires
            old(self).wf(),
        ensures
            final(self).wf(),
            final(self).spec_state() == old(self).spec_state(),
            final(self).spec_name() == old(self).spec_name(),
            final(self).spec_pool() == old(self).spec_pool(),
            final(self).spec_sub_capacity() == old(self).spec_sub_capacity(),
            final(self).spec_comp_capacity() == old(self).spec_comp_capacity(),
            old(self).spec_state() is Closed ==> r == Err::<QueueEntry, ErrorCode>(
                ErrorCode::PeerGone,
            ) && *final(self) == *old(self),
            !(old(self).spec_state() is Closed) ==> {
                &&& r is Ok <==> old(self).spec_comp().len() > 0
                &&& r is Err ==> *final(self) == *old(self) && r == Err::<QueueEntry, ErrorCode>(
                    ErrorCode::NotReady,
                )
                &&& r is Ok ==> r == Ok::<QueueEntry, ErrorCode>(old(self).spec_comp()[0]) && final(self).spec_comp() == old(self).spec_comp().drop_first() && final(self).spec_received() == old(self).spec_received().push(
                    old(self).spec_comp()[0].id,
                ) && final(self).spec_sub() == old(self).spec_sub() && final(self).spec_submitted() == old(self).spec_submitted() && final(self).spec_held() == old(self).spec_held()
            },
    {
        if matches!(self.state, ChannelState::Closed) {
            return Err(ErrorCode::PeerGone);
        }
        let res = self.comp_ring.pop();
        match res {
            Ok(e) => {
                self.received = Ghost(self.received@.push(e.id));
                proof {
                    broadcast use vstd::seq_lib::group_to_multiset_ensures;
                    broadcast use vstd::multiset::group_multiset_axioms;
                    lemma_sum_push(old(self).received@, e.id);
                    let ids = ids_of(old(self).comp_ring@);
                    assert(ids[0] == e.id);
                    assert(ids_of(self.comp_ring@) =~= ids.drop_first());
                    assert(ids.drop_first() =~= ids.remove(0));
                    assert(ids.remove(0).to_multiset() =~= ids.to_multiset().remove(e.id));
                    assert(ids.contains(e.id));
                    assert(ids.to_multiset().count(e.id) > 0);
                    assert(old(self).received@.push(e.id).to_multiset() =~= old(
                        self,
                    ).received@.to_multiset().insert(e.id));
                    assert(self.submitted@.to_multiset() =~= self.received@.to_multiset().add(
                        self.held@.to_multiset(),
                    ).add(ids_of(self.sub_ring@).to_multiset()).add(
                        ids_of(self.comp_ring@).to_multiset(),
                    ));
                }
                Ok(e)
            },
            Err(code) => Err(code),
        }
    }

    /// Server side: dequeue the next submission without blocking.
    ///
    /// `NotReady` means no submission is pending. A dequeued entry is held by
    /// the server until it completes an entry with the same id; the held
    /// entry must be completed, never re-dequeued.
    pub fn get_sqe(&mut self) -> (r: Result<QueueEntry, ErrorCode>)
        requires
            old(self).wf(),
        ensures
            final(self).wf(),
            final(self).spec_state() == old(self).spec_state(),
            final(self).spec_name() == old(self).spec_name(),
            final(self).spec_pool() == old(self).spec_pool(),
            final(self).spec_sub_capacity() == old(self).spec_sub_capacity(),
            final(self).spec_comp_capacity() == old(self).spec_comp_capacity(),
            old(self).spec_state() is Closed ==> r == Err::<QueueEntry, ErrorCode>(
                ErrorCode::PeerGone,
            ) && *final(self) == *old(self),
            !(old(self).spec_state() is Closed) ==> {
                &&& r is Ok <==> old(self).spec_sub().len() > 0
                &&& r is Err ==> *final(self) == *old(self) && r == Err::<QueueEntry, ErrorCode>(
                    ErrorCode::NotReady,
                )
                &&& r is Ok ==> r == Ok::<QueueEntry, ErrorCode>(old(self).spec_sub()[0]) && final(self).spec_sub() == old(self).spec_sub().drop_first() && final(self).spec_held() == old(self).spec_held().push(old(self).spec_sub()[0].id) && final(self).spec_comp() == old(self).spec_comp() && final(self).spec_submitted() == old(self).spec_submitted()
                    && final(self).spec_received() == old(self).spec_received()
            },
    {
        if matches!(self.state, ChannelState::Closed) {
            return Err(ErrorCode::PeerGone);
        }
        let res = self.sub_ring.pop();
        match res {
            Ok(e) => {
                self.held = Ghost(self.held@.push(e.id));
                proof {
                    broadcast use vstd::seq_lib::group_to_multiset_ensures;
                    broadcast use vstd::multiset::group_multiset_axioms;
                    lemma_sum_push(old(self).held@, e.id);
                    let ids = ids_of(old(self).sub_ring@);
                    assert(ids[0] == e.id);
                    assert(ids_of(self.sub_ring@) =~= ids.drop_first());
                    assert(ids.drop_first() =~= ids.remove(0));
                    assert(ids.remove(0).to_multiset() =~= ids.to_multiset().remove(e.id));
                    assert(ids.contains(e.id));
                    assert(ids.to_multiset().count(e.id) > 0);
                    assert(old(self).held@.push(e.id).to_multiset() =~= old(
                        self,
                    ).held@.to_multiset().insert(e.id));
                    assert(self.submitted@.to_multiset() =~= self.received@.to_multiset().add(
                        self.held@.to_multiset(),
                    ).add(ids_of(self.sub_ring@).to_multiset()).add(
                        ids_of(self.comp_ring@).to_multiset(),
                    ));
                }
                Ok(e)
            },
            Err(code) => Err(code),
        }
    }

    /// Server side: enqueue a completion for a previously dequeued entry.
    ///
    /// The entry must carry the id of a submission the server holds:
    /// completing an entry that was never dequeued is a protocol violation
    /// excluded by the precondition. `NotReady` means the completion ring is
    /// full; the server must keep the entry and retry after waiting — it must
    /// not dequeue it again.
    pub fn complete_sqe(&mut self, e: QueueEntry) -> (r: Result<(), ErrorCode>)
        requires
            old(self).wf(),
            old(self).spec_held().contains(e.id),
        ensures
            final(self).wf(),
            final(self).spec_state() == old(self).spec_state(),
            final(self).spec_name() == old(self).spec_name(),
            final(self).spec_pool() == old(self).spec_pool(),
            final(self).spec_sub_capacity() == old(self).spec_sub_capacity(),
            final(self).spec_comp_capacity() == old(self).spec_comp_capacity(),
            old(self).spec_state() is Closed ==> r == Err::<(), ErrorCode>(ErrorCode::PeerGone)
                && *final(self) == *old(self),
            !(old(self).spec_state() is Closed) ==> {
                &&& r is Ok <==> old(self).spec_comp().len() < old(self).spec_comp_capacity()
                &&& r is Err ==> *final(self) == *old(self) && r == Err::<(), ErrorCode>(
                    ErrorCode::NotReady,
                )
                &&& r is Ok ==> final(self).spec_comp() == old(self).spec_comp().push(e) && final(self).spec_held() == old(self).spec_held().remove(
                    old(self).spec_held().index_of(e.id),
                ) && final(self).spec_sub() == old(self).spec_sub() && final(self).spec_submitted() == old(self).spec_submitted() && final(self).spec_received()
                    == old(self).spec_received()
            },
    {
        if matches!(self.state, ChannelState::Closed) {
            return Err(ErrorCode::PeerGone);
        }
        proof {
            self.sub_ring.lemma_wf_bounds();
            self.comp_ring.lemma_wf_bounds();
            assert(old(self).held@.len() > 0);
            assert(self.comp_ring.spec_pushed() == self.received@.len() + self.comp_ring@.len());
            assert(self.comp_ring.spec_pushed() < self.submitted@.len());
        }
        let res = self.comp_ring.push(e);
        match res {
            Ok(()) => {
                proof {
                    let idx = old(self).held@.index_of(e.id);
                    assert(0 <= idx < old(self).held@.len() && old(self).held@[idx] == e.id);
                    lemma_sum_remove(old(self).held@, idx);
                    lemma_sum_push(ids_of(old(self).comp_ring@), e.id);
                    assert(ids_of(self.comp_ring@) =~= ids_of(old(self).comp_ring@).push(e.id));
                }
                self.held = Ghost(self.held@.remove(self.held@.index_of(e.id)));
                proof {
                    broadcast use vstd::seq_lib::group_to_multiset_ensures;
                    broadcast use vstd::multiset::group_multiset_axioms;
                    let idx = old(self).held@.index_of(e.id);
                    assert(old(self).held@.remove(idx).to_multiset() =~= old(
                        self,
                    ).held@.to_multiset().remove(e.id));
                    assert(old(self).held@.contains(e.id));
                    assert(old(self).held@.to_multiset().count(e.id) > 0);
                    assert(ids_of(old(self).comp_ring@).push(e.id).to_multiset() =~= ids_of(
                        old(self).comp_ring@,
                    ).to_multiset().insert(e.id));
                    assert(self.submitted@.to_multiset() =~= self.received@.to_multiset().add(
                        self.held@.to_multiset(),
                    ).add(ids_of(self.sub_ring@).to_multiset()).add(
                        ids_of(self.comp_ring@).to_multiset(),
                    ));
                }
                Ok(())
            },
            Err(code) => Err(code),
        }
    }

    /// Client side: true exactly when no entry is submitted and not yet
    /// returned by a completion poll — the graceful-shutdown drain test.
    pub fn is_empty(&self) -> (r: bool)
        requires
            self.wf(),
        ensures
            r == (self.spec_outstanding() == 0),
    {
        self.sub_ring.total_pushed() == self.comp_ring.total_popped()
    }

    /// Number of entries the submission ring still has room for.
    pub fn sub_free_slots(&self) -> (r: usize)
        requires
            self.wf(),
        ensures
            r == self.spec_sub_capacity() - self.spec_sub().len(),
    {
        proof {
            self.sub_ring.lemma_wf_bounds();
        }
        self.sub_ring.capacity() - self.sub_ring.len()
    }

    /// Whether the channel is still listening for its one peer.
    pub fn is_listening(&self) -> (r: bool)
        requires
            self.wf(),
        ensures
            r == (self.spec_state() is Listening),
    {
        matches!(self.state, ChannelState::Listening)
    }

    /// Capacity of the submission ring.
    pub fn sub_capacity(&self) -> (r: usize)
        requires
            self.wf(),
        ensures
            r == self.spec_sub_capacity(),
    {
        self.sub_ring.capacity()
    }

    /// Capacity of the completion ring.
    pub fn comp_capacity(&self) -> (r: usize)
        requires
            self.wf(),
        ensures
            r == self.spec_comp_capacity(),
    {
        self.comp_ring.capacity()
    }

    /// Number of blocks in the buffer pool.
    pub fn pool_blocks(&self) -> (r: u16)
        requires
            self.wf(),
        ensures
            r == self.spec_pool().spec_num_blocks(),
    {
        proof {
            self.pool.lemma_wf_nonempty();
        }
        self.pool.num_blocks()
    }

    /// The geometry a well-formed channel guarantees: power-of-two ring
    /// capacities within bounds and a nonempty pool — what the server's
    /// accept validates before trusting the mapping.
    pub proof fn lemma_wf_geometry(self)
        requires
            self.wf(),
        ensures
            crate::ring::is_power_of_two(self.spec_sub_capacity()),
            crate::ring::is_power_of_two(self.spec_comp_capacity()),
            0 < self.spec_sub_capacity() <= crate::ring::MAX_RING_CAPACITY,
            0 < self.spec_comp_capacity() <= crate::ring::MAX_RING_CAPACITY,
            0 < self.spec_pool().spec_num_blocks() <= u16::MAX,
            self.spec_sub().len() <= self.spec_sub_capacity(),
            self.spec_comp().len() <= self.spec_comp_capacity(),
    {
        self.sub_ring.lemma_wf_bounds();
        self.comp_ring.lemma_wf_bounds();
        self.pool.lemma_wf_nonempty();
    }

    /// The bytes of an allocated token are exactly its blocks' worth.
    pub proof fn lemma_token_bytes_len(self, t: IoBuffer)
        requires
            self.wf(),
            self.spec_pool().spec_allocated(t),
        ensures
            self.spec_pool().token_bytes(t).len() == t.spec_len_bytes(),
    {
        self.pool.lemma_token_bytes_len(t);
    }

    /// Conservation law: once the channel reports empty — no entry
    /// submitted and not yet returned — the ids received are a permutation
    /// of the ids submitted; in particular the sum of all submitted ids
    /// equals the sum of all received ids, for distinct or repeated ids
    /// alike.
    pub proof fn lemma_conservation(self)
        requires
            self.wf(),
            self.spec_outstanding() == 0,
        ensures
            self.spec_received().len() == self.spec_submitted().len(),
            self.spec_received().to_multiset() == self.spec_submitted().to_multiset(),
            sum_ids(self.spec_received()) == sum_ids(self.spec_submitted()),
    {
        broadcast use vstd::seq_lib::group_to_multiset_ensures;
        broadcast use vstd::multiset::group_multiset_axioms;
        assert(self.held@.len() == 0);
        assert(self.sub_ring@.len() == 0);
        assert(self.comp_ring@.len() == 0);
        assert(sum_ids(self.held@) == 0);
        assert(ids_of(self.sub_ring@).len() == 0);
        assert(sum_ids(ids_of(self.sub_ring@)) == 0);
        assert(ids_of(self.comp_ring@).len() == 0);
        assert(sum_ids(ids_of(self.comp_ring@)) == 0);
        assert(self.held@.to_multiset().len() == 0);
        assert(ids_of(self.sub_ring@).to_multiset().len() == 0);
        assert(ids_of(self.comp_ring@).to_multiset().len() == 0);
        vstd::multiset::lemma_multiset_empty_len(self.held@.to_multiset());
        vstd::multiset::lemma_multiset_empty_len(ids_of(self.sub_ring@).to_multiset());
        vstd::multiset::lemma_multiset_empty_len(ids_of(self.comp_ring@).to_multiset());
        assert(self.received@.to_multiset() =~= self.submitted@.to_multiset());
    }

    /// Drain characterization: the channel reports empty exactly when no
    /// entry sits in the submission ring, is held by the server, or sits in
    /// the completion ring — `is_empty` answers "nothing in flight", not
    /// merely "nothing to poll".
    pub proof fn lemma_empty_characterization(self)
        requires
            self.wf(),
        ensures
            (self.spec_outstanding() == 0) <==> (self.spec_sub().len() == 0 && self.spec_held().len()
                == 0 && self.spec_comp().len() == 0),
    {
    }

    /// Backpressure recovery: when a submit was refused because the
    /// submission ring was full, one successful server dequeue makes room,
    /// and the next submit on the still-open channel is owed success by
    /// `submit_sqe`'s contract — there is no permanent starvation while the
    /// server drains.
    pub proof fn lemma_backpressure_recovery(before: Channel, after: Channel)
        requires
            before.wf(),
            after.wf(),
            before.spec_sub().len() == before.spec_sub_capacity(),
            after.spec_sub() == before.spec_sub().drop_first(),
            after.spec_sub_capacity() == before.spec_sub_capacity(),
        ensures
            after.spec_sub().len() < after.spec_sub_capacity(),
    {
        before.lemma_wf_geometry();
    }

    /// Whether the channel has been torn down.
    pub fn is_closed(&self) -> (r: bool)
        requires
            self.wf(),
        ensures
            r == (self.spec_state() is Closed),
    {
        matches!(self.state, ChannelState::Closed)
    }
}

} // verus!
