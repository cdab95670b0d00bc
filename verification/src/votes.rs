//! A small operator graph on top of the state layer: a base table of
//! articles, a base table of votes, and a view that counts the votes of
//! each article. The view is maintained write by write and may be partial,
//! in which case a key is first computed when it is first read.
//!
//! What a read returns is stated against the plain sequence of writes, so
//! the incremental path and the replay path are both held to the result of
//! recomputing from scratch.

use vstd::prelude::*;
use crate::ops::count_up;
use crate::state::{LookupResult, State};

verus! {

/// One write to a base table.
#[derive(Clone, Debug, PartialEq, Eq)]
pub enum Write {
    Article { id: i64, title: String },
    Vote { user: i64, article: i64 },
}

/// What a read of one article returns.
#[derive(Clone, Debug, PartialEq, Eq)]
pub enum ArticleResult {
    Article { id: i64, title: String, votes: i64 },
    NoSuchArticle,
}

/// A count as a signed column value; one too large to fit stops at the
/// largest value.
pub open spec fn capped(n: nat) -> i64 {
    if n <= i64::MAX {
        n as i64
    } else {
        i64::MAX
    }
}

/// What the count view says about one article, without replaying.
#[derive(Clone, Copy, Debug, PartialEq, Eq, Structural)]
pub enum Votes {
    Count(u64),
    Miss,
}

/// The number of votes for `article` among `writes`.
pub open spec fn tally(writes: Seq<Write>, article: i64) -> nat
    decreases writes.len(),
{
    if writes.len() == 0 {
        0
    } else {
        tally(writes.drop_last(), article) + match writes.last() {
            Write::Vote { user, article: a } => if a == article {
                1nat
            } else {
                0nat
            },
            _ => 0nat,
        }
    }
}

/// The titles written for article `id` among `writes`, in write order.
pub open spec fn titles(writes: Seq<Write>, id: i64) -> Seq<String>
    decreases writes.len(),
{
    if writes.len() == 0 {
        Seq::empty()
    } else {
        match writes.last() {
            Write::Article { id: i, title } => if i == id {
                titles(writes.drop_last(), id).push(title)
            } else {
                titles(writes.drop_last(), id)
            },
            _ => titles(writes.drop_last(), id),
        }
    }
}

/// What a read of `id` owes after `writes`: the article under its first
/// title with all its votes, or no article where none was written.
pub open spec fn expected(writes: Seq<Write>, id: i64) -> ArticleResult {
    if titles(writes, id).len() == 0 {
        ArticleResult::NoSuchArticle
    } else {
        (ArticleResult::Article {
            id,
            title: titles(writes, id)[0],
            votes: capped(tally(writes, id)),
        })
    }
}

/// `rows` is the single row that holds the count `n`.
pub open spec fn one_count(rows: Seq<usize>, n: nat) -> bool {
    rows.len() == 1 && rows[0] == n
}

/// The two base tables and the count view over them.
pub struct VoteGraph {
    articles: State<String>,
    votes: State<i64>,
    counts: State<usize>,
    history: Ghost<Seq<Write>>,
}

impl VoteGraph {
    /// The base tables hold what was written, and every key the view holds
    /// has the count that the votes written so far give it.
    pub closed spec fn wf(&self) -> bool {
        &&& self.articles.wf()
        &&& self.votes.wf()
        &&& self.counts.wf()
        &&& !self.articles.is_partial()
        &&& !self.votes.is_partial()
        &&& forall|k: i64| #[trigger] self.articles.rows_of(k) == titles(self.history@, k)
        &&& forall|k: i64| (#[trigger] self.votes.rows_of(k)).len() == tally(self.history@, k)
        &&& forall|k: i64| #[trigger]
            self.counts.holds(k) ==> one_count(self.counts.rows_of(k), tally(self.history@, k))
        &&& forall|k: i64|
            !self.counts.is_partial() && !(#[trigger] self.counts.holds(k)) ==> tally(
                self.history@,
                k,
            ) == 0
    }

    /// Every write applied so far, in order.
    pub closed spec fn history(&self) -> Seq<Write> {
        self.history@
    }

    /// Whether the count view is partially materialized.
    pub closed spec fn is_partial(&self) -> bool {
        self.counts.is_partial()
    }

    /// Whether the count view can answer for `id` without a replay.
    pub closed spec fn filled(&self, id: i64) -> bool {
        self.counts.knows(id)
    }

    /// The count that the view itself stores for `id`, where it can answer.
    pub closed spec fn held(&self, id: i64) -> Option<nat> {
        if !self.counts.knows(id) {
            None
        } else if self.counts.rows_of(id).len() == 0 {
            Some(0nat)
        } else {
            Some(self.counts.rows_of(id)[0] as nat)
        }
    }

    /// Two empty base tables and an empty count view, partial or full.
    pub fn new(partial: bool) -> (g: VoteGraph)
        ensures
            g.wf(),
            g.is_partial() == partial,
            g.history() == Seq::<Write>::empty(),
            forall|k: i64| g.filled(k) == !partial,
    {
        VoteGraph {
            articles: State::new(false),
            votes: State::new(false),
            counts: State::new(partial),
            history: Ghost(Seq::empty()),
        }
    }

    /// Applies one write to its base table and carries it on into the
    /// count view. A vote for a key that a partial view was never filled
    /// for stops at the view: the replay that fills the key will count it.
    pub fn write(&mut self, w: Write)
        requires
            old(self).wf(),
        ensures
            final(self).wf(),
            final(self).history() == old(self).history().push(w),
            final(self).is_partial() == old(self).is_partial(),
            forall|k: i64| final(self).filled(k) == old(self).filled(k),
    {
        let ghost h0 = self.history@;
        let ghost h1 = h0.push(w);
        let ghost before = *self;
        proof {
            assert(h1.drop_last() =~= h0);
            assert(h1.last() == w);
        }
        match w {
            Write::Article { id, title } => {
                self.articles.insert(id, title);
                self.history = Ghost(h1);
                proof {
                    assert forall|k: i64| #[trigger]
                        self.articles.rows_of(k) == titles(h1, k) by {
                        assert(before.articles.rows_of(k) == titles(h0, k));
                    }
                    assert forall|k: i64| tally(h1, k) == tally(h0, k) by {}
                    assert forall|k: i64| (#[trigger] self.votes.rows_of(k)).len() == tally(
                        h1,
                        k,
                    ) by {
                        assert(before.votes.rows_of(k).len() == tally(h0, k));
                    }
                }
            },
            Write::Vote { user, article } => {
                self.votes.insert(article, user);
                proof {
                    self.votes.rows_bounded(article);
                    assert(before.votes.rows_of(article).len() == tally(h0, article));
                    assert(tally(h1, article) == tally(h0, article) + 1);
                    before.counts.rows_bounded(article);
                    if before.counts.holds(article) {
                        assert(one_count(before.counts.rows_of(article), tally(h0, article)));
                    }
                }
                let _out = count_up(&mut self.counts, article);
                proof {
                    if before.counts.knows(article) {
                        assert(one_count(self.counts.rows_of(article), tally(h1, article)));
                    } else {
                        crate::state::same_contents_same_answers(self.counts, before.counts);
                    }
                }
                self.history = Ghost(h1);
                proof {
                    assert forall|k: i64| k != article implies tally(h1, k) == tally(h0, k) by {}
                    assert forall|k: i64| titles(h1, k) == titles(h0, k) by {}
                    assert forall|k: i64| #[trigger]
                        self.articles.rows_of(k) == titles(h1, k) by {
                        assert(before.articles.rows_of(k) == titles(h0, k));
                    }
                    assert forall|k: i64| (#[trigger] self.votes.rows_of(k)).len() == tally(
                        h1,
                        k,
                    ) by {
                        assert(before.votes.rows_of(k).len() == tally(h0, k));
                    }
                    assert forall|k: i64| #[trigger] self.counts.holds(k) implies one_count(
                        self.counts.rows_of(k),
                        tally(h1, k),
                    ) by {
                        if k != article {
                            assert(before.counts.holds(k));
                        }
                    }
                    assert forall|k: i64|
                        !self.counts.is_partial() && !(#[trigger] self.counts.holds(
                            k,
                        )) implies tally(h1, k) == 0 by {
                        if k != article {
                            assert(!before.counts.holds(k));
                        }
                    }
                    assert forall|k: i64| self.filled(k) == before.filled(k) by {
                        if k != article {
                            assert(self.counts.holds(k) == before.counts.holds(k));
                        }
                    }
                }
            },
        }
    }

    /// What the count view holds for `id` right now: the number of votes
    /// written for it, or a miss where a partial view was never filled.
    pub fn lookup(&self, id: i64) -> (v: Votes)
        requires
            self.wf(),
        ensures
            v == (if self.filled(id) {
                Votes::Count(tally(self.history(), id) as u64)
            } else {
                Votes::Miss
            }),
            tally(self.history(), id) <= usize::MAX,
            self.held(id) == (if self.filled(id) {
                Some(tally(self.history(), id))
            } else {
                None
            }),
    {
        proof {
            self.votes.rows_bounded(id);
            assert(self.votes.rows_of(id).len() == tally(self.history@, id));
            self.counts.rows_bounded(id);
            if self.counts.holds(id) {
                assert(one_count(self.counts.rows_of(id), tally(self.history@, id)));
            }
        }
        match self.counts.lookup(id) {
            LookupResult::Hit(rows) => Votes::Count(rows[0] as u64),
            LookupResult::Hole => Votes::Count(0),
            LookupResult::Miss => Votes::Miss,
        }
    }

    /// Fills the count view for `id` from the base table of votes, as a
    /// replay does after a miss. Returns whether anything had to be done:
    /// for a key that was filled already the replay does not run.
    pub fn replay(&mut self, id: i64) -> (ran: bool)
        requires
            old(self).wf(),
        ensures
            final(self).wf(),
            ran == !old(self).filled(id),
            final(self).filled(id),
            final(self).history() == old(self).history(),
            final(self).is_partial() == old(self).is_partial(),
            forall|k: i64| k != id ==> final(self).filled(k) == old(self).filled(k),
    {
        if self.counts.is_known(id) {
            return false;
        }
        let ghost before = *self;
        let n: usize = self.votes.count(id);
        self.counts.mark_filled(id);
        self.counts.insert(id, n);
        proof {
            let h = self.history@;
            before.counts.rows_bounded(id);
            assert(before.votes.rows_of(id).len() == tally(h, id));
            assert(one_count(self.counts.rows_of(id), tally(h, id)));
            assert forall|k: i64| #[trigger] self.counts.holds(k) implies one_count(
                self.counts.rows_of(k),
                tally(h, k),
            ) by {
                if k != id {
                    assert(before.counts.holds(k));
                }
            }
            assert forall|k: i64| k != id implies self.filled(k) == before.filled(k) by {
                assert(self.counts.holds(k) == before.counts.holds(k));
            }
        }
        true
    }

    /// Forgets what a partial count view holds for `id`; a full view is
    /// left as it is. The base tables are never touched.
    pub fn evict(&mut self, id: i64)
        requires
            old(self).wf(),
        ensures
            final(self).wf(),
            final(self).history() == old(self).history(),
            final(self).is_partial() == old(self).is_partial(),
            final(self).filled(id) == !old(self).is_partial(),
            forall|k: i64| k != id ==> final(self).filled(k) == old(self).filled(k),
    {
        let ghost before = *self;
        self.counts.evict(id);
        proof {
            same_or_evicted(&before.counts, &self.counts, id);
            let h = self.history@;
            assert forall|k: i64| #[trigger] self.counts.holds(k) implies one_count(
                self.counts.rows_of(k),
                tally(h, k),
            ) by {
                assert(before.counts.holds(k));
            }
            assert forall|k: i64|
                !self.counts.is_partial() && !(#[trigger] self.counts.holds(k)) implies tally(h, k)
                == 0 by {
                assert(!before.counts.holds(k));
            }
        }
    }

    /// Reads article `id`: its first title and the number of its votes, or
    /// no article where none was written. A miss in the count view is
    /// replayed first, so the answer is the same whether the view is
    /// partial or full.
    pub fn read(&mut self, id: i64) -> (r: ArticleResult)
        requires
            old(self).wf(),
        ensures
            final(self).wf(),
            r == expected(old(self).history(), id),
            final(self).history() == old(self).history(),
            final(self).is_partial() == old(self).is_partial(),
            final(self).filled(id),
            forall|k: i64| k != id ==> final(self).filled(k) == old(self).filled(k),
    {
        self.replay(id);
        let votes: i64 = match self.lookup(id) {
            Votes::Count(n) => if n <= 0x7fff_ffff_ffff_ffff {
                n as i64
            } else {
                i64::MAX
            },
            Votes::Miss => 0,
        };
        assert(self.articles.rows_of(id) == titles(self.history@, id));
        match self.articles.lookup(id) {
            LookupResult::Hit(rows) => {
                let title: String = rows[0].clone();
                ArticleResult::Article { id, title, votes }
            },
            LookupResult::Hole => ArticleResult::NoSuchArticle,
            LookupResult::Miss => ArticleResult::NoSuchArticle,
        }
    }
}

proof fn same_or_evicted<T>(before: &State<T>, after: &State<T>, key: i64)
    requires
        before.wf(),
        after.wf(),
        after.same_elsewhere(before, key),
        after.contents() == before.contents() || (!after.holds(key) && after.rows_of(key)
            == Seq::<T>::empty()),
    ensures
        forall|k: i64| after.holds(k) ==> before.holds(k) && after.rows_of(k) == before.rows_of(k),
        after.contents() == before.contents() ==> forall|k: i64|
            after.holds(k) == before.holds(k),
{
    if after.contents() == before.contents() {
        crate::state::same_contents_same_answers(*after, *before);
    }
}

/// Counting is a fold over the writes: the votes among two runs of writes,
/// one after the other, are the votes of the first and those of the second.
pub proof fn tally_of_concat(first: Seq<Write>, second: Seq<Write>, article: i64)
    ensures
        tally(first + second, article) == tally(first, article) + tally(second, article),
    decreases second.len(),
{
    if second.len() == 0 {
        assert(first + second =~= first);
    } else {
        assert((first + second).drop_last() =~= first + second.drop_last());
        assert((first + second).last() == second.last());
        tally_of_concat(first, second.drop_last(), article);
    }
}

/// After the same writes a partial view and a full view give the same
/// answer for every article: partial materialization cannot be observed.
/// What a read owes depends on the writes alone, a full view stores exactly
/// the count that recomputing gives, and so does a partial view for every
/// key that it was filled for.
pub proof fn partial_is_transparent(partial: VoteGraph, full: VoteGraph, id: i64)
    requires
        partial.wf(),
        full.wf(),
        partial.is_partial(),
        !full.is_partial(),
        partial.history() == full.history(),
    ensures
        expected(partial.history(), id) == expected(full.history(), id),
        full.held(id) == Some(tally(full.history(), id)),
        partial.filled(id) ==> partial.held(id) == full.held(id),
{
    stored_count_is_tally(partial, id);
    stored_count_is_tally(full, id);
}

/// Whatever writes led here, a key that the view can answer for stores the
/// number of votes written for it: nothing lost, nothing counted twice.
pub proof fn stored_count_is_tally(g: VoteGraph, id: i64)
    requires
        g.wf(),
    ensures
        g.filled(id) ==> g.held(id) == Some(tally(g.history(), id)),
        !g.filled(id) ==> g.held(id).is_none(),
        !g.is_partial() ==> g.filled(id),
        tally(g.history(), id) <= usize::MAX,
{
    g.votes.rows_bounded(id);
    g.counts.rows_bounded(id);
    assert(g.votes.rows_of(id).len() == tally(g.history@, id));
    if g.counts.holds(id) {
        assert(one_count(g.counts.rows_of(id), tally(g.history@, id)));
    }
}

} // verus!
