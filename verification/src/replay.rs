//! Bookkeeping for replays in flight. A miss on a key of a partial node
//! asks upstream once; whoever misses on the same key while that replay is
//! under way waits for it instead of asking again.
//!
//! The number of replays in flight is bounded: once the limit is reached a
//! miss on a new key is refused until a replay completes, and the caller
//! holds the packet back.

use vstd::prelude::*;

verus! {

/// What the tracker decided for one miss.
#[derive(Clone, Copy, Debug, PartialEq, Eq, Structural)]
pub enum Trigger {
    /// No replay was in flight for the key: send a request upstream.
    Issue,
    /// A replay is already in flight: the waiter joined it, send nothing.
    Join,
    /// The limit of replays in flight is reached: nothing was recorded.
    Refuse,
}

/// One replay in flight, with the packets waiting for it in arrival order.
pub struct Pending {
    node: usize,
    key: i64,
    waiters: Vec<u64>,
}

/// The replays in flight of one domain.
pub struct ReplayTracker {
    limit: usize,
    pending: Vec<Pending>,
}

/// How many entries of `p` are for `(node, key)`.
pub closed spec fn count_for(p: Seq<Pending>, node: usize, key: i64) -> nat
    decreases p.len(),
{
    if p.len() == 0 {
        0
    } else {
        count_for(p.drop_last(), node, key) + if p.last().node == node && p.last().key == key {
            1nat
        } else {
            0nat
        }
    }
}

proof fn lemma_count_absent(p: Seq<Pending>, node: usize, key: i64)
    requires
        forall|i: int| 0 <= i < p.len() ==> !(p[i].node == node && p[i].key == key),
    ensures
        count_for(p, node, key) == 0,
    decreases p.len(),
{
    if p.len() > 0 {
        lemma_count_absent(p.drop_last(), node, key);
    }
}

proof fn lemma_count_distinct(p: Seq<Pending>, node: usize, key: i64)
    requires
        forall|i: int, j: int|
            0 <= i < j < p.len() ==> !(p[i].node == p[j].node && p[i].key == p[j].key),
    ensures
        count_for(p, node, key) <= 1,
        count_for(p, node, key) == 1 <==> exists|i: int|
            0 <= i < p.len() && p[i].node == node && p[i].key == key,
    decreases p.len(),
{
    if p.len() > 0 {
        let q = p.drop_last();
        if p.last().node == node && p.last().key == key {
            lemma_count_absent(q, node, key);
            assert(p[p.len() - 1].node == node && p[p.len() - 1].key == key);
        } else {
            lemma_count_distinct(q, node, key);
            if count_for(q, node, key) == 1 {
                let i = choose|i: int| 0 <= i < q.len() && q[i].node == node && q[i].key == key;
                assert(p[i].node == node && p[i].key == key);
            }
            if exists|i: int| 0 <= i < p.len() && p[i].node == node && p[i].key == key {
                let i = choose|i: int| 0 <= i < p.len() && p[i].node == node && p[i].key == key;
                assert(q[i].node == node && q[i].key == key);
            }
        }
    }
}

impl ReplayTracker {
    /// No `(node, key)` has two entries, and the limit is kept.
    pub closed spec fn wf(&self) -> bool {
        &&& self.pending@.len() <= self.limit
        &&& forall|i: int, j: int|
            0 <= i < j < self.pending@.len() ==> !(self.pending@[i].node == self.pending@[j].node
                && self.pending@[i].key == self.pending@[j].key)
    }

    /// The most replays that may be in flight at once.
    pub closed spec fn limit(&self) -> nat {
        self.limit as nat
    }

    /// How many replays are in flight, over all keys.
    pub closed spec fn outstanding(&self) -> nat {
        self.pending@.len()
    }

    /// How many replays are in flight for `(node, key)`.
    pub closed spec fn replays_in_flight(&self, node: usize, key: i64) -> nat {
        count_for(self.pending@, node, key)
    }

    /// Whether a replay is in flight for `(node, key)`.
    pub closed spec fn in_flight(&self, node: usize, key: i64) -> bool {
        exists|i: int|
            0 <= i < self.pending@.len() && self.pending@[i].node == node && self.pending@[i].key
                == key
    }

    /// The packets waiting for the replay of `(node, key)`, first come
    /// first; none where no replay is in flight.
    pub closed spec fn waiters_of(&self, node: usize, key: i64) -> Seq<u64> {
        if self.in_flight(node, key) {
            self.pending@[choose|i: int|
                0 <= i < self.pending@.len() && self.pending@[i].node == node
                    && self.pending@[i].key == key].waiters@
        } else {
            Seq::empty()
        }
    }

    /// Every pair but `(node, key)` is as in `before`.
    pub open spec fn same_elsewhere(&self, before: &ReplayTracker, node: usize, key: i64) -> bool {
        &&& self.limit() == before.limit()
        &&& forall|n: usize, k: i64|
            !(n == node && k == key) ==> self.in_flight(n, k) == before.in_flight(n, k)
                && self.waiters_of(n, k) == before.waiters_of(n, k)
    }

    /// Nothing at all differs from `before`.
    pub open spec fn unchanged(&self, before: &ReplayTracker) -> bool {
        &&& self.limit() == before.limit()
        &&& self.outstanding() == before.outstanding()
        &&& forall|n: usize, k: i64|
            self.in_flight(n, k) == before.in_flight(n, k) && self.waiters_of(n, k)
                == before.waiters_of(n, k)
    }

    proof fn lemma_at(&self, i: int)
        requires
            self.wf(),
            0 <= i < self.pending@.len(),
        ensures
            self.in_flight(self.pending@[i].node, self.pending@[i].key),
            self.waiters_of(self.pending@[i].node, self.pending@[i].key)
                == self.pending@[i].waiters@,
    {
        let node = self.pending@[i].node;
        let key = self.pending@[i].key;
        let j = choose|j: int|
            0 <= j < self.pending@.len() && self.pending@[j].node == node && self.pending@[j].key
                == key;
        assert(j == i);
    }

    /// A tracker with nothing in flight that admits `limit` replays at once.
    pub fn new(limit: usize) -> (t: ReplayTracker)
        ensures
            t.wf(),
            t.limit() == limit,
            t.outstanding() == 0,
            forall|n: usize, k: i64| !t.in_flight(n, k) && t.waiters_of(n, k) == Seq::<u64>::empty(),
    {
        ReplayTracker { limit, pending: Vec::new() }
    }

    /// How many replays are in flight.
    pub fn len(&self) -> (n: usize)
        ensures
            n == self.outstanding(),
    {
        self.pending.len()
    }

    fn find(&self, node: usize, key: i64) -> (at: Option<usize>)
        requires
            self.wf(),
        ensures
            match at {
                Some(i) => i < self.pending@.len() && self.pending@[i as int].node == node
                    && self.pending@[i as int].key == key && self.in_flight(node, key)
                    && self.waiters_of(node, key) == self.pending@[i as int].waiters@,
                None => !self.in_flight(node, key) && self.waiters_of(node, key) == Seq::<
                    u64,
                >::empty(),
            },
    {
        let mut i: usize = 0;
        while i < self.pending.len()
            invariant
                self.wf(),
                i <= self.pending@.len(),
                forall|j: int|
                    0 <= j < i ==> !(self.pending@[j].node == node && self.pending@[j].key == key),
            decreases self.pending@.len() - i,
        {
            if self.pending[i].node == node && self.pending[i].key == key {
                proof {
                    self.lemma_at(i as int);
                }
                return Some(i);
            }
            i += 1;
        }
        None
    }

    /// Whether a replay is in flight for `(node, key)`.
    pub fn is_in_flight(&self, node: usize, key: i64) -> (yes: bool)
        requires
            self.wf(),
        ensures
            yes == self.in_flight(node, key),
    {
        self.find(node, key).is_some()
    }

    /// Records that `waiter` missed on `(node, key)`. The first miss issues
    /// the replay; later ones join it; a miss on a new key while the limit
    /// is reached is refused and leaves the tracker as it was.
    pub fn request(&mut self, node: usize, key: i64, waiter: u64) -> (t: Trigger)
        requires
            old(self).wf(),
        ensures
            final(self).wf(),
            final(self).same_elsewhere(old(self), node, key),
            t == (if old(self).in_flight(node, key) {
                Trigger::Join
            } else if old(self).outstanding() < old(self).limit() {
                Trigger::Issue
            } else {
                Trigger::Refuse
            }),
            t != Trigger::Refuse ==> final(self).in_flight(node, key) && final(self).waiters_of(
                node,
                key,
            ) == old(self).waiters_of(node, key).push(waiter),
            t == Trigger::Issue ==> final(self).outstanding() == old(self).outstanding() + 1,
            t == Trigger::Join ==> final(self).outstanding() == old(self).outstanding(),
            t == Trigger::Refuse ==> final(self).unchanged(old(self)),
            final(self).replays_in_flight(node, key) <= 1,
    {
        let ghost before = *self;
        let t = match self.find(node, key) {
            Some(i) => {
                self.pending[i].waiters.push(waiter);
                proof {
                    assert forall|a: int| 0 <= a < self.pending@.len() implies self.pending@[a].node
                        == before.pending@[a].node && self.pending@[a].key
                        == before.pending@[a].key by {}
                    self.lemma_at(i as int);
                    assert forall|n: usize, k: i64| !(n == node && k == key) implies self.in_flight(
                        n,
                        k,
                    ) == before.in_flight(n, k) && self.waiters_of(n, k) == before.waiters_of(
                        n,
                        k,
                    ) by {
                        if before.in_flight(n, k) {
                            let a = choose|a: int|
                                0 <= a < before.pending@.len() && before.pending@[a].node == n
                                    && before.pending@[a].key == k;
                            self.lemma_at(a);
                            before.lemma_at(a);
                        }
                        if self.in_flight(n, k) {
                            let a = choose|a: int|
                                0 <= a < self.pending@.len() && self.pending@[a].node == n
                                    && self.pending@[a].key == k;
                            assert(before.pending@[a].node == n && before.pending@[a].key == k);
                        }
                    }
                }
                Trigger::Join
            },
            None => {
                if self.pending.len() < self.limit {
                    let mut waiters: Vec<u64> = Vec::new();
                    waiters.push(waiter);
                    let p = Pending { node, key, waiters };
                    self.pending.push(p);
                    proof {
                        let n0 = before.pending@.len() as int;
                        assert forall|a: int, b: int| 0 <= a < b < self.pending@.len() implies !(
                        self.pending@[a].node == self.pending@[b].node && self.pending@[a].key
                            == self.pending@[b].key) by {
                            if b == n0 {
                                assert(before.pending@[a] == self.pending@[a]);
                            }
                        }
                        assert(self.pending@[n0] == p);
                        self.lemma_at(n0);
                        assert(p.waiters@ =~= before.waiters_of(node, key).push(waiter));
                        assert forall|n: usize, k: i64|
                            !(n == node && k == key) implies self.in_flight(n, k)
                            == before.in_flight(n, k) && self.waiters_of(n, k)
                            == before.waiters_of(n, k) by {
                            if before.in_flight(n, k) {
                                let a = choose|a: int|
                                    0 <= a < before.pending@.len() && before.pending@[a].node == n
                                        && before.pending@[a].key == k;
                                assert(self.pending@[a] == before.pending@[a]);
                                self.lemma_at(a);
                                before.lemma_at(a);
                            }
                            if self.in_flight(n, k) {
                                let a = choose|a: int|
                                    0 <= a < self.pending@.len() && self.pending@[a].node == n
                                        && self.pending@[a].key == k;
                                assert(a < n0);
                                assert(self.pending@[a] == before.pending@[a]);
                            }
                        }
                    }
                    Trigger::Issue
                } else {
                    Trigger::Refuse
                }
            },
        };
        proof {
            lemma_count_distinct(self.pending@, node, key);
        }
        t
    }

    /// Ends the replay of `(node, key)` and hands out the packets that
    /// waited for it, in arrival order. `None` where none was in flight.
    pub fn complete(&mut self, node: usize, key: i64) -> (woken: Option<Vec<u64>>)
        requires
            old(self).wf(),
        ensures
            final(self).wf(),
            final(self).same_elsewhere(old(self), node, key),
            !final(self).in_flight(node, key),
            final(self).replays_in_flight(node, key) == 0,
            match woken {
                Some(w) => old(self).in_flight(node, key) && w@ == old(self).waiters_of(node, key)
                    && final(self).outstanding() == old(self).outstanding() - 1,
                None => !old(self).in_flight(node, key) && final(self).unchanged(old(self)),
            },
    {
        let ghost before = *self;
        match self.find(node, key) {
            Some(i) => {
                let gone = self.pending.remove(i);
                proof {
                    let n = self.pending@.len() as int;
                    assert forall|a: int| 0 <= a < n implies self.pending@[a]
                        == before.pending@[if a < i { a } else { a + 1 }] by {}
                    assert forall|a: int, b: int| 0 <= a < b < n implies !(self.pending@[a].node
                        == self.pending@[b].node && self.pending@[a].key
                        == self.pending@[b].key) by {
                        let a2 = if a < i { a } else { a + 1 };
                        let b2 = if b < i { b } else { b + 1 };
                        assert(self.pending@[a] == before.pending@[a2]);
                        assert(self.pending@[b] == before.pending@[b2]);
                    }
                    assert forall|a: int| 0 <= a < n implies !(self.pending@[a].node == node
                        && self.pending@[a].key == key) by {
                        let a2 = if a < i { a } else { a + 1 };
                        assert(self.pending@[a] == before.pending@[a2]);
                    }
                    lemma_count_absent(self.pending@, node, key);
                    assert forall|m: usize, k: i64| !(m == node && k == key) implies self.in_flight(
                        m,
                        k,
                    ) == before.in_flight(m, k) && self.waiters_of(m, k) == before.waiters_of(
                        m,
                        k,
                    ) by {
                        if before.in_flight(m, k) {
                            let b = choose|b: int|
                                0 <= b < before.pending@.len() && before.pending@[b].node == m
                                    && before.pending@[b].key == k;
                            let a = if b < i { b } else { b - 1 };
                            assert(self.pending@[a] == before.pending@[b]);
                            self.lemma_at(a);
                            before.lemma_at(b);
                        }
                        if self.in_flight(m, k) {
                            let a = choose|a: int|
                                0 <= a < n && self.pending@[a].node == m && self.pending@[a].key
                                    == k;
                            let a2 = if a < i { a } else { a + 1 };
                            assert(self.pending@[a] == before.pending@[a2]);
                        }
                    }
                }
                Some(gone.waiters)
            },
            None => {
                proof {
                    lemma_count_absent(self.pending@, node, key);
                }
                None
            },
        }
    }
}

/// At any time at most one replay is in flight for a node and key, and
/// exactly one where the tracker says that one is in flight.
pub proof fn at_most_one_replay(t: ReplayTracker, node: usize, key: i64)
    requires
        t.wf(),
    ensures
        t.replays_in_flight(node, key) <= 1,
        t.replays_in_flight(node, key) == 1 <==> t.in_flight(node, key),
        t.outstanding() <= t.limit(),
{
    lemma_count_distinct(t.pending@, node, key);
}

} // verus!
