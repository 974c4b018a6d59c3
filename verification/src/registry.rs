//! The channel namespace and the two endpoint handles.
//!
//! A server registers a channel under a string name; exactly one client may
//! attach to it, and the server then accepts that peer. Reserved names are
//! gated by a privilege check: creating one without the privilege fails with
//! the terminal `NotAllowed`. Connecting to a name nobody listens on fails
//! immediately with the terminal `NotFound`, never with `NotReady`.
//!
//! The registry stands for the process-wide naming context the kernel would
//! otherwise hold; it is created once at startup and passed by reference.

use vstd::prelude::*;
use vstd::string::StringExecFns;
use crate::channel::Channel;
use crate::errors::ErrorCode;
use crate::ring::is_power_of_two;

verus! {

/// Number of slots in each ring of a newly created channel.
pub const RING_SLOTS: usize = 64;

/// Number of pool blocks in a newly created channel.
pub const POOL_BLOCKS: u16 = 128;

/// The well-known system channel name; only privileged callers may bind it.
pub open spec fn is_reserved_name(n: Seq<char>) -> bool {
    n == "sys-io"@
}

struct NameSlot {
    name: String,
    attached: bool,
}

/// The namespace of active server-bound channel names.
pub struct Registry {
    privileged: bool,
    slots: Vec<NameSlot>,
}

impl Registry {
    /// Whether the owning process may bind reserved names.
    pub closed spec fn spec_privileged(self) -> bool {
        self.privileged
    }

    /// Whether a channel is bound under `name`.
    pub closed spec fn spec_has(self, name: Seq<char>) -> bool {
        exists|i: int| 0 <= i < self.slots@.len() && self.slots@[i].name@ == name
    }

    /// Whether the channel bound under `name` already has its one peer.
    pub closed spec fn spec_attached(self, name: Seq<char>) -> bool {
        exists|i: int|
            0 <= i < self.slots@.len() && self.slots@[i].name@ == name && self.slots@[i].attached
    }

    /// Names are bound at most once.
    pub closed spec fn wf(self) -> bool {
        forall|i: int, j: int|
            0 <= i < self.slots@.len() && 0 <= j < self.slots@.len() && i != j
                ==> self.slots@[i].name@ != self.slots@[j].name@
    }

    /// A fresh, empty namespace for a caller with the given privilege.
    pub fn new(privileged: bool) -> (r: Registry)
        ensures
            r.wf(),
            r.spec_privileged() == privileged,
            forall|n: Seq<char>| !r.spec_has(n),
    {
        Registry { privileged, slots: Vec::new() }
    }

    /// Index of the slot bound under `name`, if any.
    fn find(&self, name: &String) -> (r: Option<usize>)
        requires
            self.wf(),
        ensures
            r is Some ==> {
                let i = r->Some_0;
                &&& i < self.slots@.len()
                &&& self.slots@[i as int].name@ == name@
                &&& self.spec_has(name@)
                &&& self.spec_attached(name@) == self.slots@[i as int].attached
            },
            r is None ==> !self.spec_has(name@),
    {
        let mut i: usize = 0;
        while i < self.slots.len()
            invariant
                self.wf(),
                i <= self.slots@.len(),
                forall|j: int| 0 <= j < i ==> self.slots@[j].name@ != name@,
            decreases self.slots@.len() - i,
        {
            if self.slots[i].name == *name {
                proof {
                    assert forall|j: int|
                        0 <= j < self.slots@.len() && self.slots@[j].name@ == name@ implies j
                        == i by {
                        if j != i {
                            assert(self.slots@[j].name@ != self.slots@[i as int].name@);
                        }
                    }
                }
                return Some(i);
            }
            i = i + 1;
        }
        None
    }
}

/// The client endpoint: attaches to an existing named channel.
pub struct Client {
    name: String,
}

impl Client {
    /// The name of the channel this endpoint attached to.
    pub closed spec fn spec_name(self) -> Seq<char> {
        self.name@
    }

    /// Attach to the channel listening under `name`.
    ///
    /// Fails terminally — never transiently — with `NotFound` when no server
    /// has bound the name, and with `AlreadyInUse` when the channel already
    /// has its one peer. On success the registry records the attachment, and
    /// the server's accept can take ownership of this peer.
    pub fn connect(reg: &mut Registry, name: &str) -> (r: Result<Client, ErrorCode>)
        requires
            old(reg).wf(),
        ensures
            final(reg).wf(),
            final(reg).spec_privileged() == old(reg).spec_privileged(),
            !old(reg).spec_has(name@) ==> r == Err::<Client, ErrorCode>(ErrorCode::NotFound)
                && *final(reg) == *old(reg),
            old(reg).spec_has(name@) && old(reg).spec_attached(name@) ==> r == Err::<
                Client,
                ErrorCode,
            >(ErrorCode::AlreadyInUse) && *final(reg) == *old(reg),
            old(reg).spec_has(name@) && !old(reg).spec_attached(name@) ==> {
                &&& r is Ok
                &&& r->Ok_0.spec_name() == name@
                &&& final(reg).spec_attached(name@)
                &&& forall|n: Seq<char>| final(reg).spec_has(n) == old(reg).spec_has(n)
                &&& forall|n: Seq<char>|
                    n != name@ ==> final(reg).spec_attached(n) == old(reg).spec_attached(n)
            },
    {
        let owned: String = name.to_owned();
        let found = reg.find(&owned);
        match found {
            None => Err(ErrorCode::NotFound),
            Some(i) => {
                if reg.slots[i].attached {
                    return Err(ErrorCode::AlreadyInUse);
                }
                reg.slots[i].attached = true;
                proof {
                    assert(reg.slots@[i as int].name@ == name@ && reg.slots@[i as int].attached);
                    assert(reg.spec_attached(name@));
                    assert forall|n: Seq<char>| reg.spec_has(n) == old(reg).spec_has(n) by {
                        assert forall|j: int|
                            0 <= j < old(reg).slots@.len() implies reg.slots@[j].name@ == old(
                            reg,
                        ).slots@[j].name@ by {}
                    }
                    assert forall|n: Seq<char>| n != name@ implies reg.spec_attached(n) == old(
                        reg,
                    ).spec_attached(n) by {
                        assert forall|j: int|
                            0 <= j < old(reg).slots@.len() && j != i implies reg.slots@[j] == old(
                            reg,
                        ).slots@[j] by {}
                    }
                }
                Ok(Client { name: owned })
            },
        }
    }
}

/// The server endpoint: owns a named channel and accepts its one peer.
pub struct Server {
    name: String,
    accepted: bool,
}

impl Server {
    /// The name this endpoint's channel is bound under.
    pub closed spec fn spec_name(self) -> Seq<char> {
        self.name@
    }

    /// Whether the one peer has been accepted.
    pub closed spec fn spec_accepted(self) -> bool {
        self.accepted
    }

    /// Register a new channel under `name` and return its server endpoint
    /// together with the shared segment.
    ///
    /// Fails terminally with `NotAllowed` when the name is reserved and the
    /// caller lacks the privilege, and with `AlreadyInUse` when the name is
    /// already bound. The fresh channel is listening, with empty rings and a
    /// fully free pool.
    pub fn create(reg: &mut Registry, name: &str) -> (r: Result<(Server, Channel), ErrorCode>)
        requires
            old(reg).wf(),
        ensures
            final(reg).wf(),
            final(reg).spec_privileged() == old(reg).spec_privileged(),
            is_reserved_name(name@) && !old(reg).spec_privileged() ==> r == Err::<
                (Server, Channel),
                ErrorCode,
            >(ErrorCode::NotAllowed) && *final(reg) == *old(reg),
            (!is_reserved_name(name@) || old(reg).spec_privileged()) && old(reg).spec_has(name@)
                ==> r == Err::<(Server, Channel), ErrorCode>(ErrorCode::AlreadyInUse) && *final(reg)
                == *old(reg),
            (!is_reserved_name(name@) || old(reg).spec_privileged()) && !old(reg).spec_has(name@)
                ==> {
                let (server, chan) = r->Ok_0;
                &&& r is Ok
                &&& server.spec_name() == name@
                &&& !server.spec_accepted()
                &&& chan.wf()
                &&& chan.spec_state() is Listening
                &&& chan.spec_name() == name@
                &&& chan.spec_sub() == Seq::<crate::entry::QueueEntry>::empty()
                &&& chan.spec_comp() == Seq::<crate::entry::QueueEntry>::empty()
                &&& chan.spec_sub_capacity() == RING_SLOTS
                &&& chan.spec_comp_capacity() == RING_SLOTS
                &&& chan.spec_submitted() == Seq::<u64>::empty()
                &&& chan.spec_received() == Seq::<u64>::empty()
                &&& chan.spec_held() == Seq::<u64>::empty()
                &&& chan.spec_pool().spec_num_blocks() == POOL_BLOCKS
                &&& forall|t: crate::entry::IoBuffer| !chan.spec_pool().spec_allocated(t)
                &&& forall|s: int, n: int|
                    0 <= s && s + n <= POOL_BLOCKS ==> chan.spec_pool().free_run(s, n)
                &&& final(reg).spec_has(name@)
                &&& !final(reg).spec_attached(name@)
                &&& forall|n: Seq<char>|
                    n != name@ ==> final(reg).spec_has(n) == old(reg).spec_has(n) && final(reg).spec_attached(n) == old(reg).spec_attached(n)
            },
    {
        let owned: String = name.to_owned();
        let reserved: String = "sys-io".to_owned();
        if owned == reserved && !reg.privileged {
            return Err(ErrorCode::NotAllowed);
        }
        if reg.find(&owned).is_some() {
            return Err(ErrorCode::AlreadyInUse);
        }
        let slot_name: String = owned.clone();
        reg.slots.push(NameSlot { name: slot_name, attached: false });
        proof {
            reveal_with_fuel(is_power_of_two, 8);
            let k = (reg.slots@.len() - 1) as int;
            assert(reg.slots@[k].name@ == name@);
            assert forall|n: Seq<char>| n != name@ implies reg.spec_has(n) == old(
                reg,
            ).spec_has(n) && reg.spec_attached(n) == old(reg).spec_attached(n) by {
                assert forall|j: int| 0 <= j < old(reg).slots@.len() implies reg.slots@[j]
                    == old(reg).slots@[j] by {}
            }
            assert(!reg.spec_attached(name@)) by {
                assert forall|j: int|
                    0 <= j < reg.slots@.len() && reg.slots@[j].name@
                        == name@ implies !reg.slots@[j].attached by {
                    if j < old(reg).slots@.len() {
                        assert(old(reg).spec_has(name@));
                    }
                }
            }
        }
        let chan = Channel::new(RING_SLOTS, RING_SLOTS, POOL_BLOCKS, Ghost(owned@));
        Ok((Server { name: owned, accepted: false }, chan))
    }

    /// Take ownership of the one connecting peer: the single transition from
    /// listening to connected.
    ///
    /// `NotReady` means no client has attached yet: wait and retry. A closed
    /// channel fails terminally with `PeerGone`, and a channel that already
    /// accepted fails with `AlreadyInUse`. This is also the point where the
    /// server distrusts the shared mapping: it validates the ring geometry
    /// before trusting anything in it, failing with `InvalidArgument` when
    /// the validation fails — which a well-formed channel never triggers.
    pub fn accept(&mut self, reg: &Registry, chan: &mut Channel) -> (r: Result<(), ErrorCode>)
        requires
            reg.wf(),
            old(chan).wf(),
            old(self).spec_name() == old(chan).spec_name(),
            !old(self).spec_accepted(),
        ensures
            final(chan).wf(),
            final(self).spec_name() == old(self).spec_name(),
            old(chan).spec_state() is Closed ==> r == Err::<(), ErrorCode>(ErrorCode::PeerGone)
                && *final(chan) == *old(chan) && *final(self) == *old(self),
            old(chan).spec_state() is Connected ==> r == Err::<(), ErrorCode>(
                ErrorCode::AlreadyInUse,
            ) && *final(chan) == *old(chan) && *final(self) == *old(self),
            old(chan).spec_state() is Listening && !reg.spec_attached(old(self).spec_name()) ==> r
                == Err::<(), ErrorCode>(ErrorCode::NotReady) && *final(chan) == *old(chan) && *final(self) == *old(self),
            old(chan).spec_state() is Listening && reg.spec_attached(old(self).spec_name()) ==> {
                &&& r == Ok::<(), ErrorCode>(())
                &&& final(self).spec_accepted()
                &&& final(chan).spec_state() is Connected
                &&& final(chan).only_state_changed(*old(chan))
            },
    {
        if chan.is_closed() {
            return Err(ErrorCode::PeerGone);
        }
        if !chan.is_listening() {
            return Err(ErrorCode::AlreadyInUse);
        }
        // Validate the geometry of the mapping before trusting it.
        if !(is_pow2(chan.sub_capacity()) && is_pow2(chan.comp_capacity())
            && chan.pool_blocks() > 0) {
            proof {
                chan.lemma_wf_geometry();
            }
            return Err(ErrorCode::InvalidArgument);
        }
        let owned: String = self.name.clone();
        let found = reg.find(&owned);
        match found {
            Some(i) => {
                if !reg.slots[i].attached {
                    return Err(ErrorCode::NotReady);
                }
                self.accepted = true;
                chan.set_connected();
                Ok(())
            },
            None => Err(ErrorCode::NotReady),
        }
    }

    /// Unbind the server's name and tear the channel down; the peer
    /// subsequently observes `PeerGone`, not further entries.
    pub fn shutdown(self, reg: &mut Registry, chan: &mut Channel)
        requires
            old(reg).wf(),
            old(chan).wf(),
        ensures
            final(reg).wf(),
            final(reg).spec_privileged() == old(reg).spec_privileged(),
            !final(reg).spec_has(self.spec_name()),
            final(chan).wf(),
            final(chan).spec_state() is Closed,
            final(chan).only_state_changed(*old(chan)),
    {
        chan.close();
        let found = reg.find(&self.name);
        if let Some(i) = found {
            reg.slots.remove(i);
            proof {
                assert forall|j: int|
                    0 <= j < reg.slots@.len() implies reg.slots@[j].name@ != self.name@ by {
                    if j < i {
                        assert(reg.slots@[j] == old(reg).slots@[j]);
                    } else {
                        assert(reg.slots@[j] == old(reg).slots@[j + 1]);
                    }
                }
            }
        }
    }
}

/// Whether `n` is a power of two; the executable geometry check.
pub fn is_pow2(n: usize) -> (r: bool)
    ensures
        r == is_power_of_two(n as int),
{
    if n == 0 {
        return false;
    }
    let mut m: usize = n;
    while m > 1
        invariant
            m >= 1,
            is_power_of_two(m as int) == is_power_of_two(n as int),
        decreases m,
    {
        if m % 2 != 0 {
            return false;
        }
        m = m / 2;
    }
    true
}

} // verus!
