//! The channel coordinator: for each replica, whether its endpoint is up,
//! how many packets have gone out to it, and the packets held back while
//! it is down. When the endpoint comes back the coordinator hands out a
//! resume-at marker and the backlog in send order, so that nothing is lost
//! or sent twice across a reconnect. Each queue is bounded: a sender whose
//! packet does not fit is told to pause.

use vstd::prelude::*;
use fnv::FnvHashMap;

verus! {

/// A replica's address: the domain's index and the shard's index.
pub type ReplicaAddr = (usize, usize);

/// A packet between domains: records for a node, or a control instruction.
#[derive(Clone, Copy, Debug, PartialEq, Eq, Structural)]
pub enum Packet {
    /// Records for `node` under `key`; `replay` names the replay path
    /// where the records answer a replay.
    Input { node: usize, key: i64, replay: Option<u32> },
    /// A request to replay `key` along the path `tag`.
    ReplayRequest { tag: u32, node: usize, key: i64 },
    /// The packet or replay `tag` was delivered.
    Ack { tag: u32 },
    /// The next packet on this channel has sequence number `seq`.
    ResumeAt { seq: u64 },
    /// A request to create the access scope `universe`.
    CreateUniverse { universe: u64 },
}

/// What the coordinator knows of one replica's endpoint.
#[derive(Clone, Copy, Debug, PartialEq, Eq, Structural)]
pub struct Link {
    pub endpoint: u64,
    pub live: bool,
    pub sent: u64,
}

/// `fnv::FnvHasher`, the hasher of the coordinator's maps; nothing is
/// stated of it.
#[verifier::external_type_specification]
#[verifier::external_body]
pub struct ExFnvHasher(fnv::FnvHasher);

/// `std::hash::BuildHasherDefault`, which makes a map's hashers; nothing
/// is stated of it.
#[verifier::external_type_specification]
#[verifier::external_body]
#[verifier::reject_recursive_types(H)]
pub struct ExBuildHasherDefault<H>(std::hash::BuildHasherDefault<H>);

/// `FnvHashMap::default`: a map with the FNV hasher and no entries.
#[verifier::external_body]
pub(crate) fn map_new<V>() -> (fresh: FnvHashMap<ReplicaAddr, V>)
    ensures
        forall|a: ReplicaAddr| !fresh@.contains_key(a),
{
    FnvHashMap::default()
}

/// `HashMap::get` on an `FnvHashMap`: the value stored under `addr`, if any.
#[verifier::external_body]
pub(crate) fn map_get<V>(m: &FnvHashMap<ReplicaAddr, V>, addr: ReplicaAddr) -> (v: Option<&V>)
    ensures
        match v {
            Some(x) => m@.contains_key(addr) && *x == m@[addr],
            None => !m@.contains_key(addr),
        },
{
    m.get(&addr)
}

/// `HashMap::insert` on an `FnvHashMap`: `value` is stored under `addr`,
/// in place of what was there; every other entry stays.
#[verifier::external_body]
pub(crate) fn map_put<V>(m: &mut FnvHashMap<ReplicaAddr, V>, addr: ReplicaAddr, value: V)
    ensures
        final(m)@ == old(m)@.insert(addr, value),
{
    m.insert(addr, value);
}

/// `HashMap::remove` on an `FnvHashMap`: the entry under `addr` leaves the
/// map and its value is returned; every other entry stays.
#[verifier::external_body]
pub(crate) fn map_take<V>(m: &mut FnvHashMap<ReplicaAddr, V>, addr: ReplicaAddr) -> (v: Option<V>)
    ensures
        final(m)@ == old(m)@.remove(addr),
        v == (if old(m)@.contains_key(addr) {
            Some(old(m)@[addr])
        } else {
            None
        }),
{
    m.remove(&addr)
}

/// What to do with a packet handed to `send`.
#[derive(Clone, Copy, Debug, PartialEq, Eq, Structural)]
pub enum Dispatch {
    /// The endpoint is up: send the packet there, as number `seq`.
    Deliver { endpoint: u64, seq: u64 },
    /// The endpoint is down: the packet was queued.
    Queued,
    /// The queue is full or the sequence numbers are used up: the packet
    /// was not taken, and the sender has to pause.
    Pause,
}

/// What to send first when an endpoint comes back.
pub struct Resume {
    /// The marker for the remote side: `Packet::ResumeAt` with the number
    /// of packets that went out before.
    pub marker: Packet,
    /// The packets that were held back, in send order.
    pub backlog: Vec<Packet>,
}

/// The coordinator of one process.
pub struct Coordinator {
    bound: usize,
    links: FnvHashMap<ReplicaAddr, Link>,
    queues: FnvHashMap<ReplicaAddr, Vec<Packet>>,
}

impl Coordinator {
    /// No queue is longer than the bound.
    pub closed spec fn wf(&self) -> bool {
        forall|a: ReplicaAddr| #[trigger]
            self.queues@.contains_key(a) ==> self.queues@[a]@.len() <= self.bound
    }

    /// The most packets that one replica's queue holds.
    pub closed spec fn bound(&self) -> nat {
        self.bound as nat
    }

    /// Whether an endpoint was ever registered for `addr`.
    pub closed spec fn registered(&self, addr: ReplicaAddr) -> bool {
        self.links@.contains_key(addr)
    }

    /// Whether the endpoint of `addr` is up.
    pub closed spec fn is_live(&self, addr: ReplicaAddr) -> bool {
        self.links@.contains_key(addr) && self.links@[addr].live
    }

    /// The endpoint registered for `addr`, 0 where none is.
    pub closed spec fn endpoint(&self, addr: ReplicaAddr) -> u64 {
        if self.links@.contains_key(addr) {
            self.links@[addr].endpoint
        } else {
            0
        }
    }

    /// How many packets have gone out to `addr`.
    pub closed spec fn sent(&self, addr: ReplicaAddr) -> nat {
        if self.links@.contains_key(addr) {
            self.links@[addr].sent as nat
        } else {
            0
        }
    }

    /// The packets held back for `addr`, in send order.
    pub closed spec fn queue(&self, addr: ReplicaAddr) -> Seq<Packet> {
        if self.queues@.contains_key(addr) {
            self.queues@[addr]@
        } else {
            Seq::empty()
        }
    }

    /// Every replica but `addr` is as in `before`.
    pub open spec fn same_elsewhere(&self, before: &Coordinator, addr: ReplicaAddr) -> bool {
        &&& self.bound() == before.bound()
        &&& forall|a: ReplicaAddr|
            a != addr ==> self.registered(a) == before.registered(a) && self.is_live(a)
                == before.is_live(a) && self.endpoint(a) == before.endpoint(a) && self.sent(a)
                == before.sent(a) && self.queue(a) == before.queue(a)
    }

    /// Replica `addr` is as in `before`.
    pub open spec fn same_at(&self, before: &Coordinator, addr: ReplicaAddr) -> bool {
        self.registered(addr) == before.registered(addr) && self.is_live(addr) == before.is_live(
            addr,
        ) && self.endpoint(addr) == before.endpoint(addr) && self.sent(addr) == before.sent(addr)
            && self.queue(addr) == before.queue(addr)
    }

    /// A coordinator that knows no replica; each queue holds `bound` packets.
    pub fn new(bound: usize) -> (c: Coordinator)
        ensures
            c.wf(),
            c.bound() == bound,
            forall|a: ReplicaAddr|
                !c.registered(a) && !c.is_live(a) && c.sent(a) == 0 && c.queue(a) == Seq::<
                    Packet,
                >::empty(),
    {
        Coordinator { bound, links: map_new(), queues: map_new() }
    }

    /// How many packets are held back for `addr`.
    pub fn queued(&self, addr: ReplicaAddr) -> (n: usize)
        ensures
            n == self.queue(addr).len(),
    {
        match map_get(&self.queues, addr) {
            Some(q) => q.len(),
            None => 0,
        }
    }

    /// Hands `packet` over for `addr`. With the endpoint up the caller is
    /// told to deliver it under the next sequence number; with it down the
    /// packet joins the queue; where it does not fit the sender pauses.
    pub fn send(&mut self, addr: ReplicaAddr, packet: Packet) -> (out: Dispatch)
        requires
            old(self).wf(),
        ensures
            final(self).wf(),
            final(self).same_elsewhere(old(self), addr),
            out == (if old(self).is_live(addr) {
                if old(self).sent(addr) < u64::MAX {
                    (Dispatch::Deliver {
                        endpoint: old(self).endpoint(addr),
                        seq: old(self).sent(addr) as u64,
                    })
                } else {
                    Dispatch::Pause
                }
            } else if old(self).queue(addr).len() < old(self).bound() {
                Dispatch::Queued
            } else {
                Dispatch::Pause
            }),
            final(self).registered(addr) == old(self).registered(addr),
            final(self).is_live(addr) == old(self).is_live(addr),
            final(self).endpoint(addr) == old(self).endpoint(addr),
            final(self).sent(addr) == old(self).sent(addr) + (if out is Deliver {
                1nat
            } else {
                0nat
            }),
            final(self).queue(addr) == (if out == Dispatch::Queued {
                old(self).queue(addr).push(packet)
            } else {
                old(self).queue(addr)
            }),
    {
        let link: Option<Link> = match map_get(&self.links, addr) {
            Some(l) => Some(*l),
            None => None,
        };
        match link {
            Some(l) if l.live => {
                if l.sent < u64::MAX {
                    map_put(
                        &mut self.links,
                        addr,
                        Link { endpoint: l.endpoint, live: true, sent: l.sent + 1 },
                    );
                    Dispatch::Deliver { endpoint: l.endpoint, seq: l.sent }
                } else {
                    Dispatch::Pause
                }
            },
            _ => {
                let ghost before = *self;
                let mut q: Vec<Packet> = match map_take(&mut self.queues, addr) {
                    Some(q) => q,
                    None => Vec::new(),
                };
                assert(q@ == before.queue(addr));
                let fits: bool = q.len() < self.bound;
                if fits {
                    q.push(packet);
                }
                map_put(&mut self.queues, addr, q);
                proof {
                    assert forall|a: ReplicaAddr| #[trigger]
                        self.queues@.contains_key(a) implies self.queues@[a]@.len()
                        <= self.bound by {
                        if a != addr {
                            assert(before.queues@.contains_key(a));
                        }
                    }
                    assert forall|a: ReplicaAddr| a != addr implies self.queue(a) == before.queue(
                        a,
                    ) by {}
                }
                if fits {
                    Dispatch::Queued
                } else {
                    Dispatch::Pause
                }
            },
        }
    }

    /// Registers `endpoint` for `addr` and marks it up. Returns the
    /// resume-at marker and the packets that were held back, which the
    /// caller sends in this order; they count as sent from now on. Where
    /// the sequence numbers would run out nothing changes.
    pub fn connect(&mut self, addr: ReplicaAddr, endpoint: u64) -> (r: Option<Resume>)
        requires
            old(self).wf(),
        ensures
            final(self).wf(),
            final(self).same_elsewhere(old(self), addr),
            r.is_some() == (old(self).sent(addr) + old(self).queue(addr).len() <= u64::MAX),
            match r {
                Some(resume) => {
                    &&& resume.marker == (Packet::ResumeAt { seq: old(self).sent(addr) as u64 })
                    &&& resume.backlog@ == old(self).queue(addr)
                    &&& final(self).registered(addr)
                    &&& final(self).is_live(addr)
                    &&& final(self).endpoint(addr) == endpoint
                    &&& final(self).sent(addr) == old(self).sent(addr) + old(self).queue(
                        addr,
                    ).len()
                    &&& final(self).queue(addr) == Seq::<Packet>::empty()
                },
                None => final(self).same_at(old(self), addr),
            },
    {
        let ghost before = *self;
        let sent: u64 = match map_get(&self.links, addr) {
            Some(l) => l.sent,
            None => 0,
        };
        let waiting: usize = self.queued(addr);
        if waiting as u64 > u64::MAX - sent {
            return None;
        }
        let backlog: Vec<Packet> = match map_take(&mut self.queues, addr) {
            Some(q) => q,
            None => Vec::new(),
        };
        map_put(&mut self.links, addr, Link { endpoint, live: true, sent: sent + waiting as u64 });
        proof {
            assert forall|a: ReplicaAddr| #[trigger]
                self.queues@.contains_key(a) implies self.queues@[a]@.len() <= self.bound by {
                assert(before.queues@.contains_key(a));
            }
        }
        Some(Resume { marker: Packet::ResumeAt { seq: sent }, backlog })
    }

    /// Marks the endpoint of `addr` as down. Packets sent from now on are
    /// queued; the count of packets sent is kept for the resume-at marker.
    pub fn disconnect(&mut self, addr: ReplicaAddr) -> (was_live: bool)
        requires
            old(self).wf(),
        ensures
            final(self).wf(),
            final(self).same_elsewhere(old(self), addr),
            was_live == old(self).is_live(addr),
            !final(self).is_live(addr),
            final(self).registered(addr) == old(self).registered(addr),
            final(self).endpoint(addr) == old(self).endpoint(addr),
            final(self).sent(addr) == old(self).sent(addr),
            final(self).queue(addr) == old(self).queue(addr),
    {
        let link: Option<Link> = match map_get(&self.links, addr) {
            Some(l) => Some(*l),
            None => None,
        };
        match link {
            Some(l) => {
                map_put(
                    &mut self.links,
                    addr,
                    Link { endpoint: l.endpoint, live: false, sent: l.sent },
                );
                l.live
            },
            None => false,
        }
    }

    /// Forgets everything about `addr`: its endpoint, its count and the
    /// packets held back for it, which are returned in send order.
    pub fn uncache_replica(&mut self, addr: ReplicaAddr) -> (dropped: Vec<Packet>)
        requires
            old(self).wf(),
        ensures
            final(self).wf(),
            final(self).same_elsewhere(old(self), addr),
            dropped@ == old(self).queue(addr),
            !final(self).registered(addr),
            !final(self).is_live(addr),
            final(self).sent(addr) == 0,
            final(self).queue(addr) == Seq::<Packet>::empty(),
    {
        let ghost before = *self;
        let _link = map_take(&mut self.links, addr);
        let dropped: Vec<Packet> = match map_take(&mut self.queues, addr) {
            Some(q) => q,
            None => Vec::new(),
        };
        proof {
            assert forall|a: ReplicaAddr| #[trigger]
                self.queues@.contains_key(a) implies self.queues@[a]@.len() <= self.bound by {
                assert(before.queues@.contains_key(a));
            }
        }
        dropped
    }
}

} // verus!
