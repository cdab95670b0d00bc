//! Provenance: for each upstream shard, how many of its updates have been
//! folded into a packet. Merging takes the larger count shard by shard.

use vstd::prelude::*;

verus! {

/// The count recorded for `shard`; a shard beyond the end has count 0.
pub open spec fn count_at(counts: Seq<u64>, shard: int) -> u64 {
    if 0 <= shard < counts.len() {
        counts[shard]
    } else {
        0
    }
}

pub open spec fn larger(a: u64, b: u64) -> u64 {
    if a >= b {
        a
    } else {
        b
    }
}

pub open spec fn smaller(a: u64, b: u64) -> u64 {
    if a <= b {
        a
    } else {
        b
    }
}

pub open spec fn longer(a: nat, b: nat) -> nat {
    if a >= b {
        a
    } else {
        b
    }
}

/// Shard by shard, the larger of the two counts.
pub open spec fn merged(a: Seq<u64>, b: Seq<u64>) -> Seq<u64> {
    Seq::new(longer(a.len(), b.len()), |i: int| larger(count_at(a, i), count_at(b, i)))
}

/// Shard by shard, the smaller of the two counts: what both sides have seen.
pub open spec fn low_water(a: Seq<u64>, b: Seq<u64>) -> Seq<u64> {
    Seq::new(longer(a.len(), b.len()), |i: int| smaller(count_at(a, i), count_at(b, i)))
}

/// `a` has seen at least what `b` has seen, on every shard.
pub open spec fn dominates(a: Seq<u64>, b: Seq<u64>) -> bool {
    forall|i: int| count_at(a, i) >= #[trigger] count_at(b, i)
}

/// The counts after raising `shard` to at least `count`.
pub open spec fn raised(a: Seq<u64>, shard: int, count: u64) -> Seq<u64> {
    Seq::new(
        longer(a.len(), (shard + 1) as nat),
        |i: int|
            if i == shard {
                larger(count_at(a, i), count)
            } else {
                count_at(a, i)
            },
    )
}

/// One shard's progress: `shard` has now sent `count` updates.
#[derive(Clone, Copy, Debug, PartialEq, Eq, Structural)]
pub struct ProvenanceUpdate {
    pub shard: usize,
    pub count: u64,
}

/// Per-shard sequence counters attached to a data packet.
#[derive(Debug)]
pub struct Provenance {
    counts: Vec<u64>,
}

impl View for Provenance {
    type V = Seq<u64>;

    closed spec fn view(&self) -> Seq<u64> {
        self.counts@
    }
}

impl Provenance {
    /// A provenance that has seen nothing.
    pub fn new() -> (p: Provenance)
        ensures
            p@ == Seq::<u64>::empty(),
    {
        Provenance { counts: Vec::new() }
    }

    /// A provenance with the given counts, one per shard.
    pub fn from_counts(counts: Vec<u64>) -> (p: Provenance)
        ensures
            p@ == counts@,
    {
        Provenance { counts }
    }

    /// The number of shards that have a recorded slot.
    pub fn shards(&self) -> (n: usize)
        ensures
            n == self@.len(),
    {
        self.counts.len()
    }

    /// The count recorded for `shard`, 0 where none is.
    pub fn count(&self, shard: usize) -> (c: u64)
        ensures
            c == count_at(self@, shard as int),
    {
        if shard < self.counts.len() {
            self.counts[shard]
        } else {
            0
        }
    }

    /// Folds `other` in: every shard's count becomes the larger of the two.
    pub fn merge(&mut self, other: &Provenance)
        ensures
            final(self)@ == merged(old(self)@, other@),
    {
        let n: usize = if self.counts.len() >= other.counts.len() {
            self.counts.len()
        } else {
            other.counts.len()
        };
        let mut out: Vec<u64> = Vec::new();
        let mut i: usize = 0;
        while i < n
            invariant
                i <= n,
                n == longer(self.counts@.len(), other.counts@.len()),
                out@.len() == i,
                forall|j: int|
                    0 <= j < i ==> out@[j] == larger(
                        count_at(self.counts@, j),
                        count_at(other.counts@, j),
                    ),
            decreases n - i,
        {
            let a: u64 = self.count(i);
            let b: u64 = other.count(i);
            out.push(if a >= b { a } else { b });
            i += 1;
        }
        assert(out@ =~= merged(self@, other@));
        self.counts = out;
    }

    /// What both `self` and `other` are known to have seen.
    pub fn low_water_mark(&self, other: &Provenance) -> (p: Provenance)
        ensures
            p@ == low_water(self@, other@),
    {
        let n: usize = if self.counts.len() >= other.counts.len() {
            self.counts.len()
        } else {
            other.counts.len()
        };
        let mut out: Vec<u64> = Vec::new();
        let mut i: usize = 0;
        while i < n
            invariant
                i <= n,
                n == longer(self.counts@.len(), other.counts@.len()),
                out@.len() == i,
                forall|j: int|
                    0 <= j < i ==> out@[j] == smaller(
                        count_at(self.counts@, j),
                        count_at(other.counts@, j),
                    ),
            decreases n - i,
        {
            let a: u64 = self.count(i);
            let b: u64 = other.count(i);
            out.push(if a <= b { a } else { b });
            i += 1;
        }
        assert(out@ =~= low_water(self@, other@));
        Provenance { counts: out }
    }

    /// Whether `update` tells nothing new: its shard already stands at that
    /// count or beyond, so the packet is a duplicate or arrives out of order.
    pub fn is_stale(&self, update: ProvenanceUpdate) -> (stale: bool)
        ensures
            stale == (update.count <= count_at(self@, update.shard as int)),
    {
        update.count <= self.count(update.shard)
    }

    /// Applies one shard's progress. Returns whether the count rose.
    pub fn apply(&mut self, update: ProvenanceUpdate) -> (rose: bool)
        requires
            update.shard < usize::MAX,
        ensures
            final(self)@ == raised(old(self)@, update.shard as int, update.count),
            rose == (update.count > count_at(old(self)@, update.shard as int)),
    {
        let ghost before = self.counts@;
        while self.counts.len() <= update.shard
            invariant
                before.len() <= self.counts@.len(),
                self.counts@.len() <= longer(before.len(), (update.shard + 1) as nat),
                forall|j: int| #![auto] count_at(self.counts@, j) == count_at(before, j),
            decreases update.shard + 1 - self.counts@.len(),
        {
            let ghost prev = self.counts@;
            self.counts.push(0);
            assert forall|j: int| #![auto] count_at(self.counts@, j) == count_at(before, j) by {
                if 0 <= j < prev.len() {
                    assert(self.counts@[j] == prev[j]);
                }
                assert(count_at(prev, j) == count_at(before, j));
            }
        }
        let current: u64 = self.counts[update.shard];
        assert(current == count_at(before, update.shard as int));
        let rose: bool = update.count > current;
        if rose {
            self.counts.set(update.shard, update.count);
        }
        assert(self.counts@ =~= raised(before, update.shard as int, update.count)) by {
            assert forall|j: int| 0 <= j < self.counts@.len() implies self.counts@[j] == raised(
                before,
                update.shard as int,
                update.count,
            )[j] by {
                if j != update.shard {
                    assert(count_at(self.counts@, j) == count_at(before, j)
                        || self.counts@[j] == count_at(before, j));
                }
            }
        }
        rose
    }

    /// Whether `self` has seen at least what `other` has, on every shard.
    pub fn covers(&self, other: &Provenance) -> (yes: bool)
        ensures
            yes == dominates(self@, other@),
    {
        let mut i: usize = 0;
        while i < other.counts.len()
            invariant
                i <= other.counts@.len(),
                forall|j: int|
                    0 <= j < i ==> count_at(self.counts@, j) >= #[trigger] count_at(
                        other.counts@,
                        j,
                    ),
            decreases other.counts@.len() - i,
        {
            if self.count(i) < other.counts[i] {
                assert(count_at(other@, i as int) > count_at(self@, i as int));
                return false;
            }
            i += 1;
        }
        true
    }
}

/// All of `updates` merged into `acc`, one after the other.
pub open spec fn merged_all(acc: Seq<u64>, updates: Seq<Provenance>) -> Seq<u64>
    decreases updates.len(),
{
    if updates.len() == 0 {
        acc
    } else {
        merged(merged_all(acc, updates.drop_last()), updates.last()@)
    }
}

/// After any number of merges a shard's count is the largest of the counts
/// that went in: no smaller than any of them, and equal to one of them.
pub proof fn merged_all_is_the_largest(acc: Seq<u64>, updates: Seq<Provenance>, shard: int)
    ensures
        count_at(merged_all(acc, updates), shard) >= count_at(acc, shard),
        forall|i: int|
            0 <= i < updates.len() ==> count_at(merged_all(acc, updates), shard) >= count_at(
                (#[trigger] updates[i])@,
                shard,
            ),
        count_at(merged_all(acc, updates), shard) == count_at(acc, shard) || exists|i: int|
            0 <= i < updates.len() && count_at(merged_all(acc, updates), shard) == count_at(
                (#[trigger] updates[i])@,
                shard,
            ),
    decreases updates.len(),
{
    if updates.len() > 0 {
        let rest = updates.drop_last();
        let last = updates.last();
        let r0 = merged_all(acc, rest);
        let r = merged_all(acc, updates);
        merged_all_is_the_largest(acc, rest, shard);
        assert(count_at(r, shard) == larger(count_at(r0, shard), count_at(last@, shard)));
        assert forall|i: int| 0 <= i < updates.len() implies count_at(r, shard) >= count_at(
            (#[trigger] updates[i])@,
            shard,
        ) by {
            if i < rest.len() {
                assert(rest[i] == updates[i]);
            }
        }
        if count_at(r, shard) == count_at(last@, shard) {
            assert(updates[updates.len() - 1] == last);
        } else if count_at(r0, shard) != count_at(acc, shard) {
            let i = choose|i: int|
                0 <= i < rest.len() && count_at(r0, shard) == count_at((#[trigger] rest[i])@, shard);
            assert(rest[i] == updates[i]);
        }
    }
}

/// After any number of merges the provenance reaches as far as the longest
/// of those that went in.
pub proof fn merged_all_is_the_longest(acc: Seq<u64>, updates: Seq<Provenance>)
    ensures
        merged_all(acc, updates).len() >= acc.len(),
        forall|i: int|
            0 <= i < updates.len() ==> merged_all(acc, updates).len() >= (#[trigger] updates[i])@.len(),
        merged_all(acc, updates).len() == acc.len() || exists|i: int|
            0 <= i < updates.len() && merged_all(acc, updates).len() == (#[trigger] updates[i])@.len(),
    decreases updates.len(),
{
    if updates.len() > 0 {
        let rest = updates.drop_last();
        let last = updates.last();
        let r0 = merged_all(acc, rest);
        let r = merged_all(acc, updates);
        merged_all_is_the_longest(acc, rest);
        assert(r.len() == longer(r0.len(), last@.len()));
        assert forall|i: int| 0 <= i < updates.len() implies r.len() >= (
        #[trigger] updates[i])@.len() by {
            if i < rest.len() {
                assert(rest[i] == updates[i]);
            }
        }
        if r.len() == last@.len() {
            assert(updates[updates.len() - 1] == last);
        } else if r0.len() != acc.len() {
            let i = choose|i: int| 0 <= i < rest.len() && r0.len() == (#[trigger] rest[i])@.len();
            assert(rest[i] == updates[i]);
        }
    }
}

/// The order of arrival does not matter: two runs of updates that hold
/// the same provenances, in whatever order and however often, leave the
/// same counts.
pub proof fn arrival_order_is_irrelevant(acc: Seq<u64>, one: Seq<Provenance>, other: Seq<Provenance>)
    requires
        forall|i: int|
            0 <= i < one.len() ==> exists|j: int|
                0 <= j < other.len() && (#[trigger] other[j])@ == (#[trigger] one[i])@,
        forall|j: int|
            0 <= j < other.len() ==> exists|i: int|
                0 <= i < one.len() && (#[trigger] one[i])@ == (#[trigger] other[j])@,
    ensures
        merged_all(acc, one) == merged_all(acc, other),
{
    let a = merged_all(acc, one);
    let b = merged_all(acc, other);
    merged_all_is_the_longest(acc, one);
    merged_all_is_the_longest(acc, other);
    assert(a.len() <= b.len()) by {
        if a.len() != acc.len() {
            let i = choose|i: int| 0 <= i < one.len() && a.len() == (#[trigger] one[i])@.len();
            let j = choose|j: int| 0 <= j < other.len() && (#[trigger] other[j])@ == one[i]@;
            assert(b.len() >= other[j]@.len());
        }
    }
    assert(b.len() <= a.len()) by {
        if b.len() != acc.len() {
            let j = choose|j: int| 0 <= j < other.len() && b.len() == (#[trigger] other[j])@.len();
            let i = choose|i: int| 0 <= i < one.len() && (#[trigger] one[i])@ == other[j]@;
            assert(a.len() >= one[i]@.len());
        }
    }
    assert forall|s: int| 0 <= s < a.len() implies a[s] == b[s] by {
        merged_all_is_the_largest(acc, one, s);
        merged_all_is_the_largest(acc, other, s);
        assert(count_at(a, s) <= count_at(b, s)) by {
            if count_at(a, s) != count_at(acc, s) {
                let i = choose|i: int|
                    0 <= i < one.len() && count_at(a, s) == count_at((#[trigger] one[i])@, s);
                let j = choose|j: int| 0 <= j < other.len() && (#[trigger] other[j])@ == one[i]@;
                assert(count_at(b, s) >= count_at(other[j]@, s));
            }
        }
        assert(count_at(b, s) <= count_at(a, s)) by {
            if count_at(b, s) != count_at(acc, s) {
                let j = choose|j: int|
                    0 <= j < other.len() && count_at(b, s) == count_at((#[trigger] other[j])@, s);
                let i = choose|i: int| 0 <= i < one.len() && (#[trigger] one[i])@ == other[j]@;
                assert(count_at(a, s) >= count_at(one[i]@, s));
            }
        }
    }
    assert(a =~= b);
}

/// Merging is commutative: the order of the two sides does not matter.
pub proof fn merge_commutes(a: Seq<u64>, b: Seq<u64>)
    ensures
        merged(a, b) == merged(b, a),
{
    assert(merged(a, b) =~= merged(b, a));
}

/// Merging is associative: how arrivals are grouped does not matter.
pub proof fn merge_associates(a: Seq<u64>, b: Seq<u64>, c: Seq<u64>)
    ensures
        merged(merged(a, b), c) == merged(a, merged(b, c)),
{
    assert(merged(merged(a, b), c) =~= merged(a, merged(b, c)));
}

/// Merging a provenance with itself changes nothing.
pub proof fn merge_idempotent(a: Seq<u64>)
    ensures
        merged(a, a) == a,
{
    assert(merged(a, a) =~= a);
}

/// Merging never lowers a shard's count, on either side.
pub proof fn merge_monotone(a: Seq<u64>, b: Seq<u64>)
    ensures
        dominates(merged(a, b), a),
        dominates(merged(a, b), b),
{
}

/// Three arrivals folded in any order leave the same counts.
pub proof fn merge_order_irrelevant(a: Seq<u64>, b: Seq<u64>, c: Seq<u64>)
    ensures
        merged(merged(a, b), c) == merged(merged(a, c), b),
        merged(merged(a, b), c) == merged(merged(b, a), c),
        merged(merged(a, b), c) == merged(merged(c, b), a),
{
    assert(merged(merged(a, b), c) =~= merged(merged(a, c), b));
    assert(merged(merged(a, b), c) =~= merged(merged(b, a), c));
    assert(merged(merged(a, b), c) =~= merged(merged(c, b), a));
}

/// Applying one shard's progress is a merge with a provenance that holds
/// only that shard's count.
pub proof fn apply_is_merge(a: Seq<u64>, shard: nat, count: u64)
    ensures
        raised(a, shard as int, count) == merged(
            a,
            Seq::new(shard + 1, |i: int| if i == shard { count } else { 0 }),
        ),
{
    assert(raised(a, shard as int, count) =~= merged(
        a,
        Seq::new(shard + 1, |i: int| if i == shard { count } else { 0 }),
    ));
}

} // verus!
