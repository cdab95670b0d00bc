//! What a domain asks of the control plane around it.

use vstd::prelude::*;
use std::collections::HashMap;
use fnv::FnvHashMap;
use crate::channel::{map_new, map_put, map_take, ReplicaAddr};
use crate::data::DataType;
use crate::provenance::{merged, merged_all, Provenance};

verus! {

/// Names one delivery to acknowledge: the channel it came in on, and its
/// tag on that channel.
#[derive(Clone, Copy, Debug, PartialEq, Eq, Structural)]
pub struct SourceChannelIdentifier {
    pub token: usize,
    pub tag: u32,
}

/// The capability that a domain is given to reach the control plane.
pub trait Executor {
    /// Confirms that the packet or replay `tag` was delivered.
    fn ack(&mut self, tag: SourceChannelIdentifier);

    /// Records the provenance of what newly came in from `from`, and the
    /// low-water mark below which buffered state may be dropped.
    fn ack_new_incoming(
        &mut self,
        from: ReplicaAddr,
        updates: Vec<Provenance>,
        min_provenance: Provenance,
    );

    /// Confirms that the stream from `from` was resumed.
    fn ack_resume_at(&mut self, from: ReplicaAddr);

    /// Drops what the coordinator holds for a replica that is retired.
    fn uncache_replica(&mut self, replica: ReplicaAddr);

    /// Passes a request to create an access scope on to the domains.
    fn create_universe(&mut self, req: HashMap<String, DataType>);
}

/// What is on record for one upstream replica.
pub struct Upstream {
    /// Everything that is known to have come in from the replica.
    pub seen: Provenance,
    /// The mark below which buffered state may be dropped.
    pub floor: Provenance,
    /// Whether the stream was resumed after a reconnect.
    pub resumed: bool,
}

/// An executor that keeps the books itself: which deliveries were
/// acknowledged, what came in from each upstream replica, and which
/// requests for access scopes wait to be passed on.
pub struct Bookkeeper {
    acked: Vec<SourceChannelIdentifier>,
    upstreams: FnvHashMap<ReplicaAddr, Upstream>,
    universes: Vec<HashMap<String, DataType>>,
}

impl Bookkeeper {
    /// The acknowledged deliveries, in order.
    pub closed spec fn acked(&self) -> Seq<SourceChannelIdentifier> {
        self.acked@
    }

    /// Whether anything is on record for `from`.
    pub closed spec fn knows(&self, from: ReplicaAddr) -> bool {
        self.upstreams@.contains_key(from)
    }

    /// What is known to have come in from `from`.
    pub closed spec fn seen(&self, from: ReplicaAddr) -> Seq<u64> {
        if self.upstreams@.contains_key(from) {
            self.upstreams@[from].seen@
        } else {
            Seq::empty()
        }
    }

    /// The low-water mark recorded for `from`.
    pub closed spec fn floor(&self, from: ReplicaAddr) -> Seq<u64> {
        if self.upstreams@.contains_key(from) {
            self.upstreams@[from].floor@
        } else {
            Seq::empty()
        }
    }

    /// Whether the stream from `from` was resumed.
    pub closed spec fn resumed(&self, from: ReplicaAddr) -> bool {
        self.upstreams@.contains_key(from) && self.upstreams@[from].resumed
    }

    /// The requests for access scopes that wait, in order.
    pub closed spec fn universes(&self) -> Seq<HashMap<String, DataType>> {
        self.universes@
    }

    /// Every replica but `addr` is on record as in `before`.
    pub open spec fn same_elsewhere(&self, before: &Bookkeeper, addr: ReplicaAddr) -> bool {
        forall|a: ReplicaAddr|
            a != addr ==> self.knows(a) == before.knows(a) && self.seen(a) == before.seen(a)
                && self.floor(a) == before.floor(a) && self.resumed(a) == before.resumed(a)
    }

    /// Empty books.
    pub fn new() -> (b: Bookkeeper)
        ensures
            b.acked() == Seq::<SourceChannelIdentifier>::empty(),
            b.universes().len() == 0,
            forall|a: ReplicaAddr|
                !b.knows(a) && b.seen(a) == Seq::<u64>::empty() && b.floor(a) == Seq::<
                    u64,
                >::empty() && !b.resumed(a),
    {
        Bookkeeper { acked: Vec::new(), upstreams: map_new(), universes: Vec::new() }
    }

    /// How many deliveries were acknowledged.
    pub fn acks(&self) -> (n: usize)
        ensures
            n == self.acked().len(),
    {
        self.acked.len()
    }

    /// How many updates from `shard` are known to have come in from `from`.
    pub fn seen_count(&self, from: ReplicaAddr, shard: usize) -> (c: u64)
        ensures
            c == crate::provenance::count_at(self.seen(from), shard as int),
    {
        match crate::channel::map_get(&self.upstreams, from) {
            Some(u) => u.seen.count(shard),
            None => 0,
        }
    }

    /// The low-water mark of `shard` recorded for `from`.
    pub fn floor_count(&self, from: ReplicaAddr, shard: usize) -> (c: u64)
        ensures
            c == crate::provenance::count_at(self.floor(from), shard as int),
    {
        match crate::channel::map_get(&self.upstreams, from) {
            Some(u) => u.floor.count(shard),
            None => 0,
        }
    }

    /// Whether the stream from `from` was resumed.
    pub fn was_resumed(&self, from: ReplicaAddr) -> (yes: bool)
        ensures
            yes == self.resumed(from),
    {
        match crate::channel::map_get(&self.upstreams, from) {
            Some(u) => u.resumed,
            None => false,
        }
    }

    /// How many requests for access scopes wait.
    pub fn waiting_universes(&self) -> (n: usize)
        ensures
            n == self.universes().len(),
    {
        self.universes.len()
    }

    fn take(&mut self, from: ReplicaAddr) -> (u: Upstream)
        ensures
            final(self).upstreams@ == old(self).upstreams@.remove(from),
            final(self).acked@ == old(self).acked@,
            final(self).universes@ == old(self).universes@,
            u.seen@ == old(self).seen(from),
            u.floor@ == old(self).floor(from),
            u.resumed == old(self).resumed(from),
    {
        match map_take(&mut self.upstreams, from) {
            Some(u) => u,
            None => Upstream { seen: Provenance::new(), floor: Provenance::new(), resumed: false },
        }
    }
}

impl Executor for Bookkeeper {
    fn ack(&mut self, tag: SourceChannelIdentifier)
        ensures
            final(self).acked() == old(self).acked().push(tag),
            final(self).universes() == old(self).universes(),
            forall|a: ReplicaAddr|
                final(self).knows(a) == old(self).knows(a) && final(self).seen(a) == old(self).seen(
                    a,
                ) && final(self).floor(a) == old(self).floor(a) && final(self).resumed(a) == old(
                    self,
                ).resumed(a),
    {
        self.acked.push(tag);
    }

    fn ack_new_incoming(
        &mut self,
        from: ReplicaAddr,
        updates: Vec<Provenance>,
        min_provenance: Provenance,
    )
        ensures
            final(self).knows(from),
            final(self).seen(from) == merged_all(old(self).seen(from), updates@),
            final(self).floor(from) == merged(old(self).floor(from), min_provenance@),
            final(self).resumed(from) == old(self).resumed(from),
            final(self).same_elsewhere(old(self), from),
            final(self).acked() == old(self).acked(),
            final(self).universes() == old(self).universes(),
    {
        let ghost before = *self;
        let mut u: Upstream = self.take(from);
        let mut i: usize = 0;
        while i < updates.len()
            invariant
                i <= updates@.len(),
                u.seen@ == merged_all(before.seen(from), updates@.subrange(0, i as int)),
                u.floor@ == before.floor(from),
                u.resumed == before.resumed(from),
                self.upstreams@ == before.upstreams@.remove(from),
                self.acked@ == before.acked@,
                self.universes@ == before.universes@,
            decreases updates@.len() - i,
        {
            proof {
                let upto = updates@.subrange(0, i as int + 1);
                assert(upto.drop_last() =~= updates@.subrange(0, i as int));
                assert(upto.last() == updates@[i as int]);
            }
            u.seen.merge(&updates[i]);
            i += 1;
        }
        proof {
            assert(updates@.subrange(0, i as int) =~= updates@);
        }
        u.floor.merge(&min_provenance);
        map_put(&mut self.upstreams, from, u);
    }

    fn ack_resume_at(&mut self, from: ReplicaAddr)
        ensures
            final(self).knows(from),
            final(self).resumed(from),
            final(self).seen(from) == old(self).seen(from),
            final(self).floor(from) == old(self).floor(from),
            final(self).same_elsewhere(old(self), from),
            final(self).acked() == old(self).acked(),
            final(self).universes() == old(self).universes(),
    {
        let mut u: Upstream = self.take(from);
        u.resumed = true;
        map_put(&mut self.upstreams, from, u);
    }

    fn uncache_replica(&mut self, replica: ReplicaAddr)
        ensures
            !final(self).knows(replica),
            final(self).seen(replica) == Seq::<u64>::empty(),
            final(self).floor(replica) == Seq::<u64>::empty(),
            !final(self).resumed(replica),
            final(self).same_elsewhere(old(self), replica),
            final(self).acked() == old(self).acked(),
            final(self).universes() == old(self).universes(),
    {
        let _gone = self.take(replica);
    }

    fn create_universe(&mut self, req: HashMap<String, DataType>)
        ensures
            final(self).universes() == old(self).universes().push(req),
            final(self).acked() == old(self).acked(),
            forall|a: ReplicaAddr|
                final(self).knows(a) == old(self).knows(a) && final(self).seen(a) == old(self).seen(
                    a,
                ) && final(self).floor(a) == old(self).floor(a) && final(self).resumed(a) == old(
                    self,
                ).resumed(a),
    {
        self.universes.push(req);
    }
}

} // verus!
