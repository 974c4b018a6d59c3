//! A single-producer/single-consumer ring of fixed-size queue entries.
//!
//! One ring carries entries in one direction: the submission ring is written
//! by the client and read by the server, the completion ring the other way
//! round. Both operations are non-blocking and O(1): a full ring refuses a
//! push and an empty ring refuses a pop, each with the transient `NotReady`.
//! The ring keeps monotonically increasing totals of entries ever pushed and
//! popped; the channel uses them to decide whether work is still outstanding.

use vstd::prelude::*;
use crate::entry::QueueEntry;
use crate::errors::ErrorCode;

verus! {

/// Largest accepted ring capacity; keeps index arithmetic far from overflow.
pub const MAX_RING_CAPACITY: usize = 0x10000;

/// Whether `n` is a power of two.
pub open spec fn is_power_of_two(n: int) -> bool
    decreases n,
{
    if n <= 0 {
        false
    } else if n == 1 {
        true
    } else {
        n % 2 == 0 && is_power_of_two(n / 2)
    }
}

/// The slot that holds the `i`-th oldest entry when the oldest sits at
/// `first` in a ring of `cap` slots.
pub open spec fn slot_index(first: int, i: int, cap: int) -> int {
    if first + i >= cap {
        first + i - cap
    } else {
        first + i
    }
}

/// A bounded circular queue with one writer and one reader.
pub struct Ring {
    slots: Vec<QueueEntry>,
    first: usize,
    len: usize,
    pushed: u64,
    popped: u64,
}

impl Ring {
    /// Number of entry slots; fixed at construction.
    pub closed spec fn spec_capacity(self) -> int {
        self.slots@.len() as int
    }

    /// Total number of entries ever pushed.
    pub closed spec fn spec_pushed(self) -> int {
        self.pushed as int
    }

    /// Total number of entries ever popped.
    pub closed spec fn spec_popped(self) -> int {
        self.popped as int
    }

    /// The entries currently in the ring, oldest first.
    pub closed spec fn view(self) -> Seq<QueueEntry> {
        Seq::new(
            self.len as nat,
            |i: int| self.slots@[slot_index(self.first as int, i, self.slots@.len() as int)],
        )
    }

    /// Internal consistency: a power-of-two capacity within bounds, a valid
    /// window, and totals that account for the current occupancy.
    pub closed spec fn wf(self) -> bool {
        &&& 0 < self.slots@.len() <= MAX_RING_CAPACITY
        &&& is_power_of_two(self.slots@.len() as int)
        &&& (self.first as int) < self.slots@.len()
        &&& self.len <= self.slots@.len()
        &&& self.popped <= self.pushed
        &&& self.pushed - self.popped == self.len
    }

    /// A ring is full when every slot holds an entry not yet popped.
    pub open spec fn spec_is_full(self) -> bool {
        self.view().len() == self.spec_capacity()
    }

    /// Bounds that well-formedness guarantees, stated over the public view:
    /// the occupancy never exceeds the capacity and the totals account for
    /// exactly the entries still queued.
    pub proof fn lemma_wf_bounds(self)
        requires
            self.wf(),
        ensures
            0 < self.spec_capacity() <= MAX_RING_CAPACITY,
            is_power_of_two(self.spec_capacity()),
            self@.len() <= self.spec_capacity(),
            0 <= self.spec_popped() <= self.spec_pushed() <= u64::MAX,
            self.spec_pushed() - self.spec_popped() == self@.len(),
    {
    }

    /// A new, empty ring with `capacity` slots.
    pub fn new(capacity: usize) -> (r: Ring)
        requires
            0 < capacity <= MAX_RING_CAPACITY,
            is_power_of_two(capacity as int),
        ensures
            r.wf(),
            r@ == Seq::<QueueEntry>::empty(),
            r.spec_capacity() == capacity,
            r.spec_pushed() == 0,
            r.spec_popped() == 0,
    {
        let mut slots: Vec<QueueEntry> = Vec::new();
        let mut i: usize = 0;
        while i < capacity
            invariant
                i <= capacity,
                slots@.len() == i,
            decreases capacity - i,
        {
            slots.push(QueueEntry::new());
            i = i + 1;
        }
        let r = Ring { slots, first: 0, len: 0, pushed: 0, popped: 0 };
        proof {
            assert(r@ =~= Seq::<QueueEntry>::empty());
        }
        r
    }

    /// Number of entries currently queued.
    pub fn len(&self) -> (r: usize)
        requires
            self.wf(),
        ensures
            r == self@.len(),
    {
        self.len
    }

    /// Number of entry slots.
    pub fn capacity(&self) -> (r: usize)
        requires
            self.wf(),
        ensures
            r == self.spec_capacity(),
    {
        self.slots.len()
    }

    /// True when no entry is queued.
    pub fn is_empty(&self) -> (r: bool)
        requires
            self.wf(),
        ensures
            r == (self@.len() == 0),
    {
        self.len == 0
    }

    /// True when the next push would be refused.
    pub fn is_full(&self) -> (r: bool)
        requires
            self.wf(),
        ensures
            r == self.spec_is_full(),
    {
        self.len == self.slots.len()
    }

    /// Total number of entries ever pushed.
    pub fn total_pushed(&self) -> (r: u64)
        requires
            self.wf(),
        ensures
            r == self.spec_pushed(),
    {
        self.pushed
    }

    /// Total number of entries ever popped.
    pub fn total_popped(&self) -> (r: u64)
        requires
            self.wf(),
        ensures
            r == self.spec_popped(),
    {
        self.popped
    }

    /// Enqueue `e` at the tail, or refuse with `NotReady` when the ring is
    /// full. Never blocks; a refused push leaves the ring untouched.
    pub fn push(&mut self, e: QueueEntry) -> (r: Result<(), ErrorCode>)
        requires
            old(self).wf(),
            old(self).spec_pushed() < u64::MAX,
        ensures
            final(self).wf(),
            final(self).spec_capacity() == old(self).spec_capacity(),
            final(self).spec_popped() == old(self).spec_popped(),
            r is Ok <==> !old(self).spec_is_full(),
            r is Ok ==> final(self)@ == old(self)@.push(e) && final(self).spec_pushed() == old(
                self,
            ).spec_pushed() + 1,
            r is Err ==> *final(self) == *old(self) && r == Err::<(), ErrorCode>(
                ErrorCode::NotReady,
            ),
    {
        let cap = self.slots.len();
        if self.len == cap {
            return Err(ErrorCode::NotReady);
        }
        let mut idx = self.first + self.len;
        if idx >= cap {
            idx = idx - cap;
        }
        self.slots[idx] = e;
        self.len = self.len + 1;
        self.pushed = self.pushed + 1;
        proof {
            assert(self@ =~= old(self)@.push(e));
        }
        Ok(())
    }

    /// Dequeue the oldest entry, or refuse with `NotReady` when the ring is
    /// empty. Never blocks; a refused pop leaves the ring untouched.
    pub fn pop(&mut self) -> (r: Result<QueueEntry, ErrorCode>)
        requires
            old(self).wf(),
        ensures
            final(self).wf(),
            final(self).spec_capacity() == old(self).spec_capacity(),
            final(self).spec_pushed() == old(self).spec_pushed(),
            r is Ok <==> old(self)@.len() > 0,
            r is Ok ==> r == Ok::<QueueEntry, ErrorCode>(old(self)@[0]) && final(self)@ == old(
                self,
            )@.drop_first() && final(self).spec_popped() == old(self).spec_popped() + 1,
            r is Err ==> *final(self) == *old(self) && r == Err::<QueueEntry, ErrorCode>(
                ErrorCode::NotReady,
            ),
    {
        if self.len == 0 {
            return Err(ErrorCode::NotReady);
        }
        let e = self.slots[self.first];
        let cap = self.slots.len();
        let mut nf = self.first + 1;
        if nf >= cap {
            nf = nf - cap;
        }
        self.first = nf;
        self.len = self.len - 1;
        self.popped = self.popped + 1;
        proof {
            assert(self@ =~= old(self)@.drop_first());
        }
        Ok(e)
    }
}

} // verus!
