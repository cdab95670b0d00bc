//! Keyed row storage for one node, fully or partially materialized.
//!
//! A full state is authoritative for every key. A partial state is
//! authoritative only for the keys it holds; every other key is unknown and
//! has to be filled by a replay before it can be answered.

use vstd::prelude::*;

verus! {

/// What a state says about one key.
pub enum Answer<T> {
    /// The key is known and has these rows, at least one.
    Hit(Seq<T>),
    /// The key is known to have no rows.
    Hole,
    /// The key was never filled: only a replay can tell.
    Miss,
}

/// The result of a lookup, borrowing the rows from the state.
pub enum LookupResult<'a, T> {
    Hit(&'a Vec<T>),
    Hole,
    Miss,
}

/// The rows held for one key, in the order they were inserted.
pub struct Bucket<T> {
    key: i64,
    rows: Vec<T>,
}

/// Keyed row storage for one node.
pub struct State<T> {
    partial: bool,
    buckets: Vec<Bucket<T>>,
}

impl<T> State<T> {
    /// No key has two buckets.
    pub closed spec fn wf(&self) -> bool {
        forall|i: int, j: int|
            0 <= i < j < self.buckets@.len() ==> self.buckets@[i].key != self.buckets@[j].key
    }

    /// Whether the state may have unknown keys.
    pub closed spec fn is_partial(&self) -> bool {
        self.partial
    }

    /// Whether the state holds a bucket for `key`.
    pub closed spec fn holds(&self, key: i64) -> bool {
        exists|i: int| 0 <= i < self.buckets@.len() && self.buckets@[i].key == key
    }

    /// The rows held for `key`, none where the state holds no bucket for it.
    pub closed spec fn rows_of(&self, key: i64) -> Seq<T> {
        if self.holds(key) {
            self.buckets@[choose|i: int|
                0 <= i < self.buckets@.len() && self.buckets@[i].key == key].rows@
        } else {
            Seq::empty()
        }
    }

    /// The buckets as they lie in the state: each key with its rows.
    pub closed spec fn contents(&self) -> Seq<(i64, Seq<T>)> {
        Seq::new(self.buckets@.len(), |i: int| (self.buckets@[i].key, self.buckets@[i].rows@))
    }

    /// Whether the state is authoritative for `key`.
    pub open spec fn knows(&self, key: i64) -> bool {
        !self.is_partial() || self.holds(key)
    }

    /// What a lookup of `key` answers.
    pub open spec fn answer(&self, key: i64) -> Answer<T> {
        if !self.knows(key) {
            Answer::Miss
        } else if self.rows_of(key).len() == 0 {
            Answer::Hole
        } else {
            Answer::Hit(self.rows_of(key))
        }
    }

    /// Every key but `key` is held, and has the rows, as in `before`.
    pub open spec fn same_elsewhere(&self, before: &State<T>, key: i64) -> bool {
        &&& self.is_partial() == before.is_partial()
        &&& forall|k: i64|
            k != key ==> self.holds(k) == before.holds(k) && self.rows_of(k) == before.rows_of(k)
    }

    proof fn lemma_at(&self, i: int)
        requires
            self.wf(),
            0 <= i < self.buckets@.len(),
        ensures
            self.holds(self.buckets@[i].key),
            self.rows_of(self.buckets@[i].key) == self.buckets@[i].rows@,
    {
        let key = self.buckets@[i].key;
        let j = choose|j: int| 0 <= j < self.buckets@.len() && self.buckets@[j].key == key;
        assert(j == i);
    }

    /// The rows of one key always fit a machine-sized count, and a key
    /// without a bucket has no rows.
    pub proof fn rows_bounded(&self, key: i64)
        ensures
            self.rows_of(key).len() <= usize::MAX,
            !self.holds(key) ==> self.rows_of(key) == Seq::<T>::empty(),
    {
        if self.holds(key) {
            let i = choose|i: int| 0 <= i < self.buckets@.len() && self.buckets@[i].key == key;
            assert(self.buckets@[i].rows.len() == self.buckets@[i].rows@.len());
        }
    }

    /// An empty state, partial or full.
    pub fn new(partial: bool) -> (s: State<T>)
        ensures
            s.wf(),
            s.is_partial() == partial,
            forall|k: i64| !s.holds(k) && s.rows_of(k) == Seq::<T>::empty(),
            s.contents() == Seq::<(i64, Seq<T>)>::empty(),
    {
        let s = State { partial, buckets: Vec::new() };
        assert(s.contents() =~= Seq::<(i64, Seq<T>)>::empty());
        s
    }

    /// Whether the state is partially materialized.
    pub fn partial(&self) -> (p: bool)
        ensures
            p == self.is_partial(),
    {
        self.partial
    }

    fn find(&self, key: i64) -> (at: Option<usize>)
        requires
            self.wf(),
        ensures
            match at {
                Some(i) => i < self.buckets@.len() && self.buckets@[i as int].key == key
                    && self.holds(key) && self.rows_of(key) == self.buckets@[i as int].rows@,
                None => !self.holds(key) && self.rows_of(key) == Seq::<T>::empty(),
            },
    {
        let mut i: usize = 0;
        while i < self.buckets.len()
            invariant
                self.wf(),
                i <= self.buckets@.len(),
                forall|j: int| 0 <= j < i ==> self.buckets@[j].key != key,
            decreases self.buckets@.len() - i,
        {
            if self.buckets[i].key == key {
                proof {
                    self.lemma_at(i as int);
                }
                return Some(i);
            }
            i += 1;
        }
        None
    }

    /// Whether the state is authoritative for `key`.
    pub fn is_known(&self, key: i64) -> (yes: bool)
        requires
            self.wf(),
        ensures
            yes == self.knows(key),
    {
        if !self.partial {
            return true;
        }
        self.find(key).is_some()
    }

    /// Looks `key` up: its rows, a hole where it is known to have none, a
    /// miss where a partial state was never filled for it.
    pub fn lookup(&self, key: i64) -> (r: LookupResult<'_, T>)
        requires
            self.wf(),
        ensures
            match r {
                LookupResult::Hit(rows) => self.answer(key) == Answer::Hit(rows@),
                LookupResult::Hole => self.answer(key) == Answer::<T>::Hole,
                LookupResult::Miss => self.answer(key) == Answer::<T>::Miss,
            },
    {
        match self.find(key) {
            Some(i) => {
                if self.buckets[i].rows.len() == 0 {
                    LookupResult::Hole
                } else {
                    LookupResult::Hit(&self.buckets[i].rows)
                }
            },
            None => {
                if self.partial {
                    LookupResult::Miss
                } else {
                    LookupResult::Hole
                }
            },
        }
    }

    /// The number of rows held for `key`.
    pub fn count(&self, key: i64) -> (n: usize)
        requires
            self.wf(),
        ensures
            n == self.rows_of(key).len(),
    {
        match self.find(key) {
            Some(i) => self.buckets[i].rows.len(),
            None => 0,
        }
    }

    proof fn lemma_pushed(&self, before: &State<T>, b: Bucket<T>)
        requires
            before.wf(),
            !before.holds(b.key),
            self.partial == before.partial,
            self.buckets@ == before.buckets@.push(b),
        ensures
            self.wf(),
            self.holds(b.key),
            self.rows_of(b.key) == b.rows@,
            self.same_elsewhere(before, b.key),
    {
        let n = before.buckets@.len() as int;
        assert forall|i: int, j: int| 0 <= i < j < self.buckets@.len() implies self.buckets@[i].key
            != self.buckets@[j].key by {
            if j == n {
                assert(before.buckets@[i].key == self.buckets@[i].key);
            }
        }
        assert(self.buckets@[n] == b);
        self.lemma_at(n);
        assert forall|k: i64| k != b.key implies self.holds(k) == before.holds(k) && self.rows_of(
            k,
        ) == before.rows_of(k) by {
            if before.holds(k) {
                let i = choose|i: int| 0 <= i < before.buckets@.len() && before.buckets@[i].key == k;
                assert(self.buckets@[i] == before.buckets@[i]);
                self.lemma_at(i);
                before.lemma_at(i);
            }
            if self.holds(k) {
                let i = choose|i: int| 0 <= i < self.buckets@.len() && self.buckets@[i].key == k;
                assert(i < n);
                assert(self.buckets@[i] == before.buckets@[i]);
            }
        }
    }

    proof fn lemma_rows_changed(&self, before: &State<T>, at: int)
        requires
            before.wf(),
            0 <= at < before.buckets@.len(),
            self.partial == before.partial,
            self.buckets@.len() == before.buckets@.len(),
            self.buckets@[at].key == before.buckets@[at].key,
            forall|i: int|
                0 <= i < before.buckets@.len() && i != at ==> self.buckets@[i]
                    == before.buckets@[i],
        ensures
            self.wf(),
            self.holds(before.buckets@[at].key),
            self.rows_of(before.buckets@[at].key) == self.buckets@[at].rows@,
            self.same_elsewhere(before, before.buckets@[at].key),
    {
        let key = before.buckets@[at].key;
        assert forall|i: int| 0 <= i < self.buckets@.len() implies self.buckets@[i].key
            == before.buckets@[i].key by {}
        self.lemma_at(at);
        assert forall|k: i64| k != key implies self.holds(k) == before.holds(k) && self.rows_of(k)
            == before.rows_of(k) by {
            if before.holds(k) {
                let i = choose|i: int| 0 <= i < before.buckets@.len() && before.buckets@[i].key == k;
                self.lemma_at(i);
                before.lemma_at(i);
            }
            if self.holds(k) {
                let i = choose|i: int| 0 <= i < self.buckets@.len() && self.buckets@[i].key == k;
                assert(before.buckets@[i].key == k);
            }
        }
    }

    /// Adds `row` under `key`. A partial state that was never filled for
    /// `key` drops the row and says so: the replay that fills the key will
    /// bring it.
    pub fn insert(&mut self, key: i64, row: T) -> (stored: bool)
        requires
            old(self).wf(),
        ensures
            final(self).wf(),
            stored == old(self).knows(key),
            final(self).same_elsewhere(old(self), key),
            stored ==> final(self).holds(key) && final(self).rows_of(key) == old(self).rows_of(
                key,
            ).push(row),
            !stored ==> final(self).contents() == old(self).contents() && !final(self).holds(key)
                && final(self).rows_of(key) == old(self).rows_of(key),
    {
        let ghost before = *self;
        match self.find(key) {
            Some(i) => {
                self.buckets[i].rows.push(row);
                proof {
                    self.lemma_rows_changed(&before, i as int);
                }
                true
            },
            None => {
                if self.partial {
                    false
                } else {
                    let mut rows: Vec<T> = Vec::new();
                    rows.push(row);
                    let b = Bucket { key, rows };
                    self.buckets.push(b);
                    proof {
                        self.lemma_pushed(&before, b);
                        assert(b.rows@ =~= before.rows_of(key).push(row));
                    }
                    true
                }
            },
        }
    }

    /// Removes every row held for `key` and returns how many there were.
    /// A key that was known stays known, now with no rows.
    pub fn remove(&mut self, key: i64) -> (removed: usize)
        requires
            old(self).wf(),
        ensures
            final(self).wf(),
            removed == old(self).rows_of(key).len(),
            final(self).same_elsewhere(old(self), key),
            final(self).holds(key) == old(self).holds(key),
            final(self).rows_of(key) == Seq::<T>::empty(),
    {
        let ghost before = *self;
        match self.find(key) {
            Some(i) => {
                let n: usize = self.buckets[i].rows.len();
                self.buckets[i].rows.clear();
                proof {
                    self.lemma_rows_changed(&before, i as int);
                }
                n
            },
            None => 0,
        }
    }

    /// Makes `key` known. A key that was unknown becomes known with no
    /// rows; for a key that was already held nothing changes at all.
    pub fn mark_filled(&mut self, key: i64)
        requires
            old(self).wf(),
        ensures
            final(self).wf(),
            final(self).holds(key),
            final(self).rows_of(key) == old(self).rows_of(key),
            final(self).same_elsewhere(old(self), key),
            old(self).holds(key) ==> final(self).contents() == old(self).contents(),
    {
        let ghost before = *self;
        match self.find(key) {
            Some(_) => {},
            None => {
                let b = Bucket { key, rows: Vec::new() };
                self.buckets.push(b);
                proof {
                    self.lemma_pushed(&before, b);
                }
            },
        }
    }

    /// Fills an unknown key with the rows that a replay brought. Returns
    /// whether it did: for a key that is already held nothing changes at
    /// all, and the rows are dropped.
    pub fn fill(&mut self, key: i64, rows: Vec<T>) -> (filled: bool)
        requires
            old(self).wf(),
        ensures
            final(self).wf(),
            filled == !old(self).holds(key),
            final(self).holds(key),
            final(self).same_elsewhere(old(self), key),
            filled ==> final(self).rows_of(key) == rows@,
            !filled ==> final(self).contents() == old(self).contents() && final(self).rows_of(key)
                == old(self).rows_of(key),
    {
        let ghost before = *self;
        match self.find(key) {
            Some(_) => false,
            None => {
                let b = Bucket { key, rows };
                self.buckets.push(b);
                proof {
                    self.lemma_pushed(&before, b);
                }
                true
            },
        }
    }

    /// Makes `key` known to have no rows, whatever was held for it.
    pub fn mark_hole(&mut self, key: i64)
        requires
            old(self).wf(),
        ensures
            final(self).wf(),
            final(self).holds(key),
            final(self).rows_of(key) == Seq::<T>::empty(),
            final(self).same_elsewhere(old(self), key),
            final(self).answer(key) == Answer::<T>::Hole,
    {
        let ghost before = *self;
        match self.find(key) {
            Some(i) => {
                self.buckets[i].rows.clear();
                proof {
                    self.lemma_rows_changed(&before, i as int);
                }
            },
            None => {
                let b = Bucket { key, rows: Vec::new() };
                self.buckets.push(b);
                proof {
                    self.lemma_pushed(&before, b);
                }
            },
        }
    }

    /// Forgets `key` in a partial state: it becomes unknown again and its
    /// rows are dropped. A full state never forgets; it is left as it was.
    pub fn evict(&mut self, key: i64) -> (evicted: bool)
        requires
            old(self).wf(),
        ensures
            final(self).wf(),
            evicted == (old(self).is_partial() && old(self).holds(key)),
            final(self).same_elsewhere(old(self), key),
            evicted ==> !final(self).holds(key) && final(self).rows_of(key) == Seq::<T>::empty(),
            !evicted ==> final(self).contents() == old(self).contents(),
    {
        if !self.partial {
            return false;
        }
        let ghost before = *self;
        match self.find(key) {
            Some(i) => {
                let _gone = self.buckets.remove(i);
                proof {
                    let n = self.buckets@.len() as int;
                    assert forall|a: int| 0 <= a < n implies self.buckets@[a] == before.buckets@[if a
                        < i { a } else { a + 1 }] by {}
                    assert forall|a: int, b: int| 0 <= a < b < n implies self.buckets@[a].key
                        != self.buckets@[b].key by {
                        let a2 = if a < i { a } else { a + 1 };
                        let b2 = if b < i { b } else { b + 1 };
                        assert(self.buckets@[a] == before.buckets@[a2]);
                        assert(self.buckets@[b] == before.buckets@[b2]);
                    }
                    if self.holds(key) {
                        let a = choose|a: int| 0 <= a < n && self.buckets@[a].key == key;
                        let a2 = if a < i { a } else { a + 1 };
                        assert(self.buckets@[a] == before.buckets@[a2]);
                        assert(false);
                    }
                    assert forall|k: i64| k != key implies self.holds(k) == before.holds(k)
                        && self.rows_of(k) == before.rows_of(k) by {
                        if before.holds(k) {
                            let b = choose|b: int|
                                0 <= b < before.buckets@.len() && before.buckets@[b].key == k;
                            let a = if b < i { b } else { b - 1 };
                            assert(self.buckets@[a] == before.buckets@[b]);
                            self.lemma_at(a);
                            before.lemma_at(b);
                        }
                        if self.holds(k) {
                            let a = choose|a: int| 0 <= a < n && self.buckets@[a].key == k;
                            let a2 = if a < i { a } else { a + 1 };
                            assert(self.buckets@[a] == before.buckets@[a2]);
                        }
                    }
                }
                true
            },
            None => false,
        }
    }
}

/// A full state answers for every key: it never misses. A partial state
/// misses exactly on the keys that it holds no bucket for.
pub proof fn full_state_never_misses<T>(s: State<T>, key: i64)
    ensures
        !s.is_partial() ==> s.answer(key) != Answer::<T>::Miss,
        s.is_partial() ==> (s.answer(key) == Answer::<T>::Miss <==> !s.holds(key)),
{
}

/// Two states with the same contents hold the same keys with the same
/// rows, so a state whose contents an operation left as they were answers
/// every lookup as before.
pub proof fn same_contents_same_answers<T>(a: State<T>, b: State<T>)
    requires
        a.wf(),
        b.wf(),
        a.contents() == b.contents(),
        a.is_partial() == b.is_partial(),
    ensures
        forall|k: i64| a.holds(k) == b.holds(k),
        forall|k: i64| a.rows_of(k) == b.rows_of(k),
        forall|k: i64| a.answer(k) == b.answer(k),
{
    assert(a.buckets@.len() == a.contents().len());
    assert(b.buckets@.len() == b.contents().len());
    assert forall|i: int| 0 <= i < a.buckets@.len() implies a.buckets@[i].key == b.buckets@[i].key
        && a.buckets@[i].rows@ == b.buckets@[i].rows@ by {
        assert(a.contents()[i] == b.contents()[i]);
    }
    assert forall|k: i64| a.holds(k) == b.holds(k) && a.rows_of(k) == b.rows_of(k) by {
        if a.holds(k) {
            let i = choose|i: int| 0 <= i < a.buckets@.len() && a.buckets@[i].key == k;
            assert(b.buckets@[i].key == k);
        }
        if b.holds(k) {
            let i = choose|i: int| 0 <= i < b.buckets@.len() && b.buckets@[i].key == k;
            assert(a.buckets@[i].key == k);
        }
        if a.holds(k) {
            let i = choose|i: int| 0 <= i < a.buckets@.len() && a.buckets@[i].key == k;
            a.lemma_at(i);
            b.lemma_at(i);
        }
    }
}

} // verus!
