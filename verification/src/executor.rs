//! The async adapter: the client's non-blocking surface as suspension
//! points for a cooperative scheduler.
//!
//! Each logical operation is a task with an explicit state: waiting for a
//! buffer, waiting for ring space, waiting for its completion, or done. A
//! scheduler pass (`step`) first drains every pending completion into a
//! store, then polls every task once in order — round-robin, so no waiting
//! task is passed over — advancing it one stage when the channel is ready
//! and leaving it suspended when the channel answers `NotReady`. Many tasks
//! multiplex one channel, told apart by their correlation ids, which the
//! caller keeps unique among outstanding operations. The driver loop around
//! `step` — wait on the bridge, run a pass, repeat — belongs to the host
//! program.
//!
//! The pass's contract pins the work down, not only its safety: on an open
//! channel the completion ring is drained empty, a task finishes only with
//! an entry the channel actually completed, a completion-waiting task never
//! stays waiting when its completion is in the store, and a task is left
//! waiting for a buffer or for ring space only when the pool or the ring
//! truly has no room.

use vstd::prelude::*;
use crate::channel::{ids_of, Channel};
use crate::entry::QueueEntry;

verus! {

/// The explicit state of one logical I/O operation.
#[derive(Clone, Copy, Debug)]
pub enum OpState {
    /// Suspended until the pool can hand out `num_blocks` blocks.
    PendingAlloc { entry: QueueEntry, num_blocks: u16 },
    /// Suspended until the submission ring has room.
    PendingSubmit { entry: QueueEntry },
    /// Submitted; suspended until the completion with this id arrives.
    PendingCqe { id: u64 },
    /// The completion arrived.
    Done { entry: QueueEntry },
}

/// How far along its life cycle an operation is.
pub open spec fn op_rank(s: OpState) -> int {
    match s {
        OpState::PendingAlloc { .. } => 0,
        OpState::PendingSubmit { .. } => 1,
        OpState::PendingCqe { .. } => 2,
        OpState::Done { .. } => 3,
    }
}

/// The correlation id an operation is about.
pub open spec fn op_id(s: OpState) -> u64 {
    match s {
        OpState::PendingAlloc { entry, .. } => entry.id,
        OpState::PendingSubmit { entry } => entry.id,
        OpState::PendingCqe { id } => id,
        OpState::Done { entry } => entry.id,
    }
}

/// The blocks an allocation-waiting task asks for; zero for every other
/// state.
pub open spec fn op_num_blocks(s: OpState) -> u16 {
    match s {
        OpState::PendingAlloc { num_blocks, .. } => num_blocks,
        _ => 0,
    }
}

/// The completion a finished task resolved to.
pub open spec fn done_entry(s: OpState) -> QueueEntry {
    match s {
        OpState::Done { entry } => entry,
        _ => vstd::pervasive::arbitrary(),
    }
}

/// A scheduler pass moves a task forward or leaves it suspended; it never
/// moves one backward and never mixes up whose operation a task is.
pub open spec fn op_advances(a: OpState, b: OpState) -> bool {
    &&& op_id(b) == op_id(a)
    &&& (a == b || op_rank(b) > op_rank(a))
}

/// The cooperative executor multiplexing tasks over one channel.
pub struct IoExecutor {
    tasks: Vec<OpState>,
    completions: Vec<QueueEntry>,
}

impl IoExecutor {
    /// The tasks, by spawn order.
    pub closed spec fn spec_tasks(self) -> Seq<OpState> {
        self.tasks@
    }

    /// Completions drained from the ring and not yet claimed by a task.
    pub closed spec fn spec_completions(self) -> Seq<QueueEntry> {
        self.completions@
    }

    /// Every allocation-waiting task asks for at least one block.
    pub closed spec fn wf(self) -> bool {
        forall|i: int|
            0 <= i < self.tasks@.len() ==> match #[trigger] self.tasks@[i] {
                OpState::PendingAlloc { num_blocks, .. } => num_blocks > 0,
                _ => true,
            }
    }

    /// An executor with no tasks.
    pub fn new() -> (r: IoExecutor)
        ensures
            r.wf(),
            r.spec_tasks() == Seq::<OpState>::empty(),
            r.spec_completions() == Seq::<QueueEntry>::empty(),
    {
        IoExecutor { tasks: Vec::new(), completions: Vec::new() }
    }

    /// Start a logical operation: with a buffer of `num_blocks` blocks when
    /// `num_blocks > 0`, without one otherwise. Returns the task's index.
    pub fn spawn(&mut self, entry: QueueEntry, num_blocks: u16) -> (idx: usize)
        requires
            old(self).wf(),
        ensures
            final(self).wf(),
            idx == old(self).spec_tasks().len(),
            final(self).spec_completions() == old(self).spec_completions(),
            num_blocks > 0 ==> final(self).spec_tasks() == old(self).spec_tasks().push(
                OpState::PendingAlloc { entry, num_blocks },
            ),
            num_blocks == 0 ==> final(self).spec_tasks() == old(self).spec_tasks().push(
                OpState::PendingSubmit { entry },
            ),
    {
        let idx = self.tasks.len();
        if num_blocks > 0 {
            self.tasks.push(OpState::PendingAlloc { entry, num_blocks });
        } else {
            self.tasks.push(OpState::PendingSubmit { entry });
        }
        idx
    }

    /// The completion of a finished task, if it has arrived.
    pub fn task_done(&self, idx: usize) -> (r: Option<QueueEntry>)
        requires
            idx < self.spec_tasks().len(),
        ensures
            r is Some <==> self.spec_tasks()[idx as int] is Done,
            r is Some ==> self.spec_tasks()[idx as int] == (OpState::Done { entry: r->Some_0 }),
    {
        match self.tasks[idx] {
            OpState::Done { entry } => Some(entry),
            _ => None,
        }
    }

    /// True when every task has its completion.
    pub fn all_done(&self) -> (r: bool)
        ensures
            r == (forall|i: int| 0 <= i < self.spec_tasks().len() ==> self.spec_tasks()[i] is Done),
    {
        let mut i: usize = 0;
        while i < self.tasks.len()
            invariant
                i <= self.tasks@.len(),
                forall|j: int| 0 <= j < i ==> self.tasks@[j] is Done,
            decreases self.tasks@.len() - i,
        {
            if !matches!(self.tasks[i], OpState::Done { .. }) {
                return false;
            }
            i = i + 1;
        }
        true
    }

    /// Index of a drained completion carrying `id`: the first match, or
    /// `None` exactly when no stored completion carries `id`.
    fn find_completion(&self, id: u64) -> (r: Option<usize>)
        ensures
            r is Some ==> {
                let j = r->Some_0;
                &&& j < self.completions@.len()
                &&& self.completions@[j as int].id == id
            },
            r is None ==> forall|j: int|
                0 <= j < self.completions@.len() ==> self.completions@[j].id != id,
    {
        let mut j: usize = 0;
        while j < self.completions.len()
            invariant
                j <= self.completions@.len(),
                forall|k: int| 0 <= k < j ==> self.completions@[k].id != id,
            decreases self.completions@.len() - j,
        {
            if self.completions[j].id == id {
                return Some(j);
            }
            j = j + 1;
        }
        None
    }

    /// One scheduler pass: drain every pending completion into the store,
    /// then poll every task once in spawn order, advancing it at most one
    /// stage.
    ///
    /// Safety: each task advances along its life cycle or stays suspended;
    /// none moves backward and none loses its id; a closed channel is not
    /// touched. Progress, on an open channel: the completion ring is left
    /// empty, with the drained entries received in order; a task finishes
    /// only with an entry that was drained from the channel (this pass or an
    /// earlier one); no task that entered the pass waiting for its
    /// completion stays waiting when the store holds a match; a task that
    /// was waiting for a buffer is left waiting only when the pool holds no
    /// free run of its size at the end of the pass;
    /// a task that was waiting to submit is left waiting only when the
    /// submission ring is full at the end of the pass, and one that did
    /// submit stands in the channel's ledger under its id.
    pub fn step(&mut self, chan: &mut Channel)
        requires
            old(self).wf(),
            old(chan).wf(),
            old(chan).spec_submitted().len() + old(self).spec_tasks().len() <= u64::MAX,
        ensures
            final(self).wf(),
            final(chan).wf(),
            final(chan).spec_state() == old(chan).spec_state(),
            final(chan).spec_name() == old(chan).spec_name(),
            final(chan).spec_sub_capacity() == old(chan).spec_sub_capacity(),
            final(chan).spec_comp_capacity() == old(chan).spec_comp_capacity(),
            final(self).spec_tasks().len() == old(self).spec_tasks().len(),
            forall|i: int|
                0 <= i < old(self).spec_tasks().len() ==> op_advances(
                    old(self).spec_tasks()[i],
                    final(self).spec_tasks()[i],
                ),
            old(chan).spec_state() is Closed ==> *final(chan) == *old(chan),
            !(old(chan).spec_state() is Closed) ==> final(chan).spec_comp().len() == 0 && final(chan).spec_received() == old(chan).spec_received() + ids_of(old(chan).spec_comp()),
            forall|j: int|
                0 <= j < final(self).spec_completions().len() ==> (old(self).spec_completions()
                    + old(chan).spec_comp()).contains(final(self).spec_completions()[j]),
            forall|i: int|
                0 <= i < old(self).spec_tasks().len() && final(self).spec_tasks()[i] is Done && !(
                old(self).spec_tasks()[i] is Done) ==> (old(self).spec_completions() + old(chan).spec_comp()).contains(done_entry(final(self).spec_tasks()[i])),
            forall|i: int|
                0 <= i < old(self).spec_tasks().len() && old(self).spec_tasks()[i] is PendingCqe
                    && final(self).spec_tasks()[i] is PendingCqe ==> (forall|j: int|
                    0 <= j < final(self).spec_completions().len() ==> final(self).spec_completions()[j].id != op_id(final(self).spec_tasks()[i])),
            !(old(chan).spec_state() is Closed) ==> (forall|i: int|
                0 <= i < old(self).spec_tasks().len() && old(self).spec_tasks()[i] is PendingSubmit
                    && final(self).spec_tasks()[i] is PendingSubmit ==> final(chan).spec_sub().len()
                    == final(chan).spec_sub_capacity()),
            !(old(chan).spec_state() is Closed) ==> (forall|i: int|
                0 <= i < old(self).spec_tasks().len() && old(self).spec_tasks()[i] is PendingAlloc
                    && final(self).spec_tasks()[i] is PendingAlloc ==> !final(chan).spec_pool().has_free_run(op_num_blocks(final(self).spec_tasks()[i]) as int)),
            forall|i: int|
                0 <= i < old(self).spec_tasks().len() && old(self).spec_tasks()[i] is PendingSubmit
                    && final(self).spec_tasks()[i] is PendingCqe ==> final(chan).spec_submitted().contains(op_id(old(self).spec_tasks()[i])),
    {
        let ghost mut dr: Seq<QueueEntry> = Seq::empty();
        // Drain what the server has completed, so waiting tasks can finish.
        loop
            invariant
                self.wf(),
                chan.wf(),
                chan.spec_state() == old(chan).spec_state(),
                chan.spec_name() == old(chan).spec_name(),
                chan.spec_sub_capacity() == old(chan).spec_sub_capacity(),
                chan.spec_comp_capacity() == old(chan).spec_comp_capacity(),
                chan.spec_submitted() == old(chan).spec_submitted(),
                chan.spec_sub() == old(chan).spec_sub(),
                chan.spec_pool() == old(chan).spec_pool(),
                chan.spec_held() == old(chan).spec_held(),
                self.tasks@ == old(self).tasks@,
                old(chan).spec_comp() == dr + chan.spec_comp(),
                chan.spec_received() == old(chan).spec_received() + ids_of(dr),
                self.completions@ == old(self).completions@ + dr,
                old(chan).spec_state() is Closed ==> *chan == *old(chan) && dr
                    == Seq::<QueueEntry>::empty(),
            ensures
                self.wf(),
                chan.wf(),
                chan.spec_state() == old(chan).spec_state(),
                chan.spec_name() == old(chan).spec_name(),
                chan.spec_sub_capacity() == old(chan).spec_sub_capacity(),
                chan.spec_comp_capacity() == old(chan).spec_comp_capacity(),
                chan.spec_submitted() == old(chan).spec_submitted(),
                chan.spec_sub() == old(chan).spec_sub(),
                self.tasks@ == old(self).tasks@,
                old(chan).spec_comp() == dr + chan.spec_comp(),
                chan.spec_received() == old(chan).spec_received() + ids_of(dr),
                self.completions@ == old(self).completions@ + dr,
                old(chan).spec_state() is Closed ==> *chan == *old(chan) && dr
                    == Seq::<QueueEntry>::empty(),
                !(old(chan).spec_state() is Closed) ==> chan.spec_comp().len() == 0,
            decreases chan.spec_comp().len(),
        {
            let ghost pre = *chan;
            let got = chan.get_cqe();
            match got {
                Ok(e) => {
                    self.completions.push(e);
                    proof {
                        let prev_dr = dr;
                        dr = dr.push(e);
                        assert(e == pre.spec_comp()[0]);
                        assert(ids_of(dr) =~= ids_of(prev_dr).push(e.id));
                        assert(old(chan).spec_comp() =~= dr + chan.spec_comp());
                        assert(chan.spec_received() =~= old(chan).spec_received() + ids_of(dr));
                        assert(self.completions@ =~= old(self).completions@ + dr);
                    }
                },
                Err(_) => {
                    break ;
                },
            }
        }
        let ghost dr_total = dr;
        proof {
            if !(old(chan).spec_state() is Closed) {
                assert(dr_total =~= old(chan).spec_comp());
            }
            // Every stored completion was stored before the pass or was just
            // drained: an element of the old store or of the old ring.
            assert forall|j: int|
                0 <= j < self.completions@.len() implies (old(self).completions@ + old(chan).spec_comp()).contains(self.completions@[j]) by {
                if j < old(self).completions@.len() {
                    assert((old(self).completions@ + old(chan).spec_comp())[j]
                        == self.completions@[j]);
                } else {
                    let k = j - old(self).completions@.len();
                    assert(dr_total[k] == self.completions@[j]);
                    assert(old(chan).spec_comp()[k] == dr_total[k]);
                    assert((old(self).completions@ + old(chan).spec_comp())[old(self).completions@.len() + k] == self.completions@[j]);
                }
            }
        }
        // Poll every task once, in spawn order, advancing at most one stage.
        let mut i: usize = 0;
        while i < self.tasks.len()
            invariant
                self.wf(),
                chan.wf(),
                chan.spec_state() == old(chan).spec_state(),
                chan.spec_name() == old(chan).spec_name(),
                chan.spec_sub_capacity() == old(chan).spec_sub_capacity(),
                chan.spec_comp_capacity() == old(chan).spec_comp_capacity(),
                i <= self.tasks@.len(),
                self.tasks@.len() == old(self).tasks@.len(),
                chan.spec_submitted().len() <= old(chan).spec_submitted().len() + i,
                old(chan).spec_submitted().len() + old(self).spec_tasks().len() <= u64::MAX,
                chan.spec_received() == old(chan).spec_received() + ids_of(dr_total),
                !(old(chan).spec_state() is Closed) ==> dr_total == old(chan).spec_comp()
                    && chan.spec_comp().len() == 0,
                old(chan).spec_state() is Closed ==> *chan == *old(chan),
                forall|i2: int|
                    0 <= i2 < self.tasks@.len() ==> op_advances(
                        old(self).tasks@[i2],
                        self.tasks@[i2],
                    ),
                forall|i2: int| i <= i2 < self.tasks@.len() ==> self.tasks@[i2] == old(self).tasks@[i2],
                forall|j: int|
                    0 <= j < self.completions@.len() ==> (old(self).completions@ + old(chan).spec_comp()).contains(self.completions@[j]),
                forall|i2: int|
                    0 <= i2 < i && old(self).tasks@[i2] is PendingCqe
                        && self.tasks@[i2] is PendingCqe ==> (forall|j: int|
                        0 <= j < self.completions@.len() ==> self.completions@[j].id != op_id(
                            self.tasks@[i2],
                        )),
                forall|i2: int|
                    0 <= i2 < self.tasks@.len() && self.tasks@[i2] is Done && !(old(self).tasks@[i2] is Done) ==> (old(self).completions@ + old(chan).spec_comp()).contains(done_entry(self.tasks@[i2])),
                !(old(chan).spec_state() is Closed) ==> (forall|i2: int|
                    0 <= i2 < i && old(self).tasks@[i2] is PendingSubmit
                        && self.tasks@[i2] is PendingSubmit ==> chan.spec_sub().len()
                        == chan.spec_sub_capacity()),
                !(old(chan).spec_state() is Closed) ==> (forall|i2: int|
                    0 <= i2 < i && old(self).tasks@[i2] is PendingAlloc
                        && self.tasks@[i2] is PendingAlloc ==> !chan.spec_pool().has_free_run(
                        op_num_blocks(self.tasks@[i2]) as int,
                    )),
                forall|i2: int|
                    0 <= i2 < self.tasks@.len() && old(self).tasks@[i2] is PendingSubmit
                        && self.tasks@[i2] is PendingCqe ==> chan.spec_submitted().contains(
                        op_id(old(self).tasks@[i2]),
                    ),
            decreases self.tasks@.len() - i,
        {
            let ghost pre_chan = *chan;
            let ghost pre_comps = self.completions@;
            let cur = self.tasks[i];
            match cur {
                OpState::PendingAlloc { entry, num_blocks } => {
                    let got = chan.alloc_buffer(num_blocks);
                    if let Ok(t) = got {
                        let mut e2 = entry;
                        e2.payload.set_buffer(0, t);
                        self.tasks[i] = OpState::PendingSubmit { entry: e2 };
                    }
                },
                OpState::PendingSubmit { entry } => {
                    let got = chan.submit_sqe(entry);
                    if got.is_ok() {
                        self.tasks[i] = OpState::PendingCqe { id: entry.id };
                        proof {
                            // The fresh ledger entry is the pushed id; older
                            // advanced tasks keep their witness index.
                            assert(chan.spec_submitted() == pre_chan.spec_submitted().push(
                                entry.id,
                            ));
                            assert(chan.spec_submitted()[chan.spec_submitted().len() - 1]
                                == entry.id);
                            assert forall|i2: int|
                                0 <= i2 < self.tasks@.len() && old(self).tasks@[i2] is PendingSubmit && self.tasks@[i2] is PendingCqe
                                    && i2 != i implies chan.spec_submitted().contains(
                                op_id(old(self).tasks@[i2]),
                            ) by {
                                let x = op_id(old(self).tasks@[i2]);
                                let idx = choose|idx: int|
                                    0 <= idx < pre_chan.spec_submitted().len()
                                        && pre_chan.spec_submitted()[idx] == x;
                                assert(chan.spec_submitted()[idx] == x);
                            }
                        }
                    } else {
                        proof {
                            chan.lemma_wf_geometry();
                        }
                    }
                },
                OpState::PendingCqe { id } => {
                    let found = self.find_completion(id);
                    if let Some(j) = found {
                        let e = self.completions[j];
                        self.completions.remove(j);
                        self.tasks[i] = OpState::Done { entry: e };
                        proof {
                            // The store shrank: every remaining entry, and
                            // the claimed one, stood in it before.
                            assert forall|j2: int|
                                0 <= j2 < self.completions@.len() implies (old(self).completions@ + old(chan).spec_comp()).contains(
                                self.completions@[j2],
                            ) && (self.tasks@[i as int] is PendingCqe
                                ==> self.completions@[j2].id != op_id(
                                self.tasks@[i as int],
                            )) by {
                                if j2 < j {
                                    assert(self.completions@[j2] == pre_comps[j2]);
                                    assert((old(self).completions@ + old(chan).spec_comp()).contains(pre_comps[j2]));
                                } else {
                                    assert(self.completions@[j2] == pre_comps[j2 + 1]);
                                    assert((old(self).completions@ + old(chan).spec_comp()).contains(pre_comps[j2 + 1]));
                                }
                            }
                            assert((old(self).completions@ + old(chan).spec_comp()).contains(
                                pre_comps[j as int],
                            ));
                            assert(done_entry(self.tasks@[i as int]) == e);
                            // Older waiting tasks still find no match: the
                            // store only shrank.
                            assert forall|i2: int|
                                0 <= i2 < i && old(self).tasks@[i2] is PendingCqe
                                    && self.tasks@[i2] is PendingCqe implies (forall|
                                j2: int,
                            |
                                0 <= j2 < self.completions@.len() ==> self.completions@[j2].id
                                    != op_id(self.tasks@[i2])) by {
                                assert forall|j2: int|
                                    0 <= j2 < self.completions@.len() implies self.completions@[j2].id != op_id(
                                    self.tasks@[i2],
                                ) by {
                                    if j2 < j {
                                        assert(self.completions@[j2] == pre_comps[j2]);
                                    } else {
                                        assert(self.completions@[j2] == pre_comps[j2 + 1]);
                                    }
                                }
                            }
                        }
                    }
                },
                OpState::Done { .. } => {},
            }
            i = i + 1;
        }
    }
}

} // verus!
