//! A chain of partial materializations below one base table. Each hop
//! passes rows on unchanged, so every hop that holds a key holds exactly
//! the base table's rows for it. A read at the end of the chain that
//! misses is replayed from the nearest hop above that holds the key, or
//! from the base table, and fills every hop that it passes on its way
//! back down.

use vstd::prelude::*;
use crate::state::{Answer, LookupResult, State};

verus! {

/// `hop` holds nothing but what `base` holds for the same key.
pub open spec fn consistent(hop: State<i64>, base: State<i64>) -> bool {
    &&& hop.wf()
    &&& hop.is_partial()
    &&& forall|k: i64| #[trigger] hop.holds(k) ==> hop.rows_of(k) == base.rows_of(k)
}

/// A base table and the partial states below it, nearest first.
pub struct Chain {
    base: State<i64>,
    hops: Vec<State<i64>>,
}

fn copy_rows(src: &Vec<i64>) -> (out: Vec<i64>)
    ensures
        out@ == src@,
{
    let mut out: Vec<i64> = Vec::new();
    let mut i: usize = 0;
    while i < src.len()
        invariant
            i <= src@.len(),
            out@ == src@.subrange(0, i as int),
        decreases src@.len() - i,
    {
        out.push(src[i]);
        proof {
            assert(out@ =~= src@.subrange(0, i as int + 1));
        }
        i += 1;
    }
    proof {
        assert(src@.subrange(0, i as int) =~= src@);
    }
    out
}

fn rows_in(state: &State<i64>, key: i64) -> (out: Vec<i64>)
    requires
        state.wf(),
    ensures
        out@ == state.rows_of(key),
{
    proof {
        state.rows_bounded(key);
    }
    match state.lookup(key) {
        LookupResult::Hit(rows) => copy_rows(rows),
        LookupResult::Hole => Vec::new(),
        LookupResult::Miss => Vec::new(),
    }
}

impl Chain {
    /// The base table is full and every hop is consistent with it.
    pub closed spec fn wf(&self) -> bool {
        &&& self.base.wf()
        &&& !self.base.is_partial()
        &&& forall|j: int|
            0 <= j < self.hops@.len() ==> consistent(#[trigger] self.hops@[j], self.base)
    }

    /// The number of hops below the base table.
    pub closed spec fn depth(&self) -> nat {
        self.hops@.len()
    }

    /// The base table's rows for `key`: what a full materialization holds.
    pub closed spec fn rows(&self, key: i64) -> Seq<i64> {
        self.base.rows_of(key)
    }

    /// Whether hop `hop` holds `key`.
    pub closed spec fn filled(&self, hop: int, key: i64) -> bool {
        0 <= hop < self.hops@.len() && self.hops@[hop].holds(key)
    }

    /// What hop `hop` answers for `key`; a miss where there is no such hop.
    pub closed spec fn answer_at(&self, hop: int, key: i64) -> Answer<i64> {
        if 0 <= hop < self.hops@.len() {
            self.hops@[hop].answer(key)
        } else {
            Answer::Miss
        }
    }

    /// What the base table answers for `key`.
    pub closed spec fn full_answer(&self, key: i64) -> Answer<i64> {
        self.base.answer(key)
    }

    /// An empty base table with `depth` empty hops below it.
    pub fn new(depth: usize) -> (c: Chain)
        ensures
            c.wf(),
            c.depth() == depth,
            forall|k: i64| c.rows(k) == Seq::<i64>::empty(),
            forall|j: int, k: i64| !c.filled(j, k),
    {
        let base: State<i64> = State::new(false);
        let mut hops: Vec<State<i64>> = Vec::new();
        let mut i: usize = 0;
        while i < depth
            invariant
                i <= depth,
                hops@.len() == i,
                forall|j: int|
                    0 <= j < hops@.len() ==> consistent(#[trigger] hops@[j], base) && forall|
                        k: i64,
                    | !hops@[j].holds(k),
            decreases depth - i,
        {
            let hop: State<i64> = State::new(true);
            hops.push(hop);
            i += 1;
        }
        Chain { base, hops }
    }

    /// Whether hop `hop` holds `key`.
    pub fn is_filled(&self, hop: usize, key: i64) -> (yes: bool)
        requires
            self.wf(),
        ensures
            yes == self.filled(hop as int, key),
    {
        if hop < self.hops.len() {
            assert(consistent(self.hops@[hop as int], self.base));
            self.hops[hop].is_known(key)
        } else {
            false
        }
    }

    /// Writes `row` under `key` to the base table and carries it down the
    /// chain. A hop that does not hold the key drops the row: the replay
    /// that fills the key will bring it.
    pub fn write(&mut self, key: i64, row: i64)
        requires
            old(self).wf(),
        ensures
            final(self).wf(),
            final(self).depth() == old(self).depth(),
            final(self).rows(key) == old(self).rows(key).push(row),
            forall|k: i64| k != key ==> final(self).rows(k) == old(self).rows(k),
            forall|j: int, k: i64| final(self).filled(j, k) == old(self).filled(j, k),
    {
        let ghost before = *self;
        self.base.insert(key, row);
        let mut i: usize = 0;
        while i < self.hops.len()
            invariant
                i <= self.hops@.len(),
                self.hops@.len() == before.hops@.len(),
                before.wf(),
                self.base.wf(),
                !self.base.is_partial(),
                self.base.rows_of(key) == before.base.rows_of(key).push(row),
                forall|k: i64| k != key ==> self.base.rows_of(k) == before.base.rows_of(k),
                forall|j: int| 0 <= j < i ==> consistent(#[trigger] self.hops@[j], self.base),
                forall|j: int| i <= j < self.hops@.len() ==> self.hops@[j] == before.hops@[j],
                forall|j: int, k: i64|
                    0 <= j < self.hops@.len() ==> self.hops@[j].holds(k) == before.hops@[j].holds(
                        k,
                    ),
            decreases self.hops@.len() - i,
        {
            let ghost prev = self.hops@;
            assert(consistent(before.hops@[i as int], before.base));
            self.hops[i].insert(key, row);
            proof {
                let hop = self.hops@[i as int];
                assert forall|k: i64| #[trigger] hop.holds(k) implies hop.rows_of(k)
                    == self.base.rows_of(k) by {
                    if k != key {
                        assert(prev[i as int].holds(k));
                    }
                }
                assert forall|j: int, k: i64| 0 <= j < self.hops@.len() implies self.hops@[j].holds(
                    k,
                ) == before.hops@[j].holds(k) by {
                    if j != i {
                        assert(self.hops@[j] == prev[j]);
                    }
                }
            }
            i += 1;
        }
    }

    /// Reads `key` at the end of the chain. Where the last hop misses, the
    /// rows are replayed from the nearest hop above that holds the key, or
    /// from the base table, and every hop on the way back down is filled.
    /// The answer is the base table's rows either way.
    pub fn read(&mut self, key: i64) -> (rows: Vec<i64>)
        requires
            old(self).wf(),
        ensures
            final(self).wf(),
            final(self).depth() == old(self).depth(),
            rows@ == old(self).rows(key),
            forall|k: i64| final(self).rows(k) == old(self).rows(k),
            forall|j: int, k: i64|
                k != key ==> final(self).filled(j, k) == old(self).filled(j, k),
            forall|j: int|
                0 <= j < old(self).depth() ==> (final(self).filled(j, key) <==> (old(self).filled(
                    j,
                    key,
                ) || forall|m: int| j <= m < old(self).depth() ==> !old(self).filled(m, key))),
    {
        let ghost before = *self;
        let n: usize = self.hops.len();
        let mut from: usize = n;
        while from > 0 && !self.is_filled(from - 1, key)
            invariant
                *self == before,
                self.wf(),
                n == self.hops@.len(),
                from <= n,
                forall|m: int| from <= m < n ==> !before.filled(m, key),
            decreases from,
        {
            from -= 1;
        }
        let rows: Vec<i64> = if from == 0 {
            rows_in(&self.base, key)
        } else {
            assert(consistent(self.hops@[from - 1], self.base));
            assert(self.hops@[from - 1].holds(key));
            rows_in(&self.hops[from - 1], key)
        };
        let mut i: usize = from;
        while i < n
            invariant
                from <= i <= n,
                n == self.hops@.len(),
                n == before.hops@.len(),
                self.base == before.base,
                before.wf(),
                rows@ == self.base.rows_of(key),
                forall|j: int|
                    0 <= j < self.hops@.len() ==> consistent(#[trigger] self.hops@[j], self.base),
                forall|j: int|
                    0 <= j < from || i <= j < n ==> self.hops@[j] == before.hops@[j],
                forall|j: int| from <= j < i ==> self.hops@[j].holds(key),
                forall|j: int, k: i64|
                    0 <= j < n && k != key ==> self.hops@[j].holds(k) == before.hops@[j].holds(k),
                forall|m: int| from <= m < n ==> !before.filled(m, key),
                from > 0 ==> before.filled(from - 1, key),
            decreases n - i,
        {
            let ghost prev = self.hops@;
            let copy: Vec<i64> = copy_rows(&rows);
            assert(consistent(prev[i as int], self.base));
            assert(!before.filled(i as int, key));
            self.hops[i].fill(key, copy);
            proof {
                let hop = self.hops@[i as int];
                assert forall|k: i64| #[trigger] hop.holds(k) implies hop.rows_of(k)
                    == self.base.rows_of(k) by {
                    if k != key {
                        assert(prev[i as int].holds(k));
                    }
                }
                assert forall|j: int| 0 <= j < self.hops@.len() implies consistent(
                    #[trigger] self.hops@[j],
                    self.base,
                ) by {
                    if j != i {
                        assert(self.hops@[j] == prev[j]);
                        assert(consistent(prev[j], self.base));
                    }
                }
                assert forall|j: int, k: i64| 0 <= j < n && k != key implies self.hops@[j].holds(k)
                    == before.hops@[j].holds(k) by {
                    if j != i {
                        assert(self.hops@[j] == prev[j]);
                    }
                }
            }
            i += 1;
        }
        proof {
            assert forall|j: int| 0 <= j < before.depth() implies (self.filled(j, key) <==> (
            before.filled(j, key) || forall|m: int|
                j <= m < before.depth() ==> !before.filled(m, key))) by {
                if j < from {
                    assert(self.hops@[j] == before.hops@[j]);
                    if from > 0 {
                        assert(before.filled(from - 1, key));
                    }
                }
            }
        }
        rows
    }
}

/// A chain of partial states cannot be told from a full materialization:
/// whatever its hops hold, a hop answers for a key with the base table's
/// answer, or it misses and the read is replayed.
pub proof fn chain_is_transparent(c: Chain, hop: int, key: i64)
    requires
        c.wf(),
        0 <= hop < c.depth(),
    ensures
        c.filled(hop, key) ==> c.answer_at(hop, key) == c.full_answer(key),
        !c.filled(hop, key) ==> c.answer_at(hop, key) == Answer::<i64>::Miss,
        c.full_answer(key) != Answer::<i64>::Miss,
{
    assert(consistent(c.hops@[hop], c.base));
}

} // verus!
