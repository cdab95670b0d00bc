//! Operator logic. An operator takes the records of one packet and either
//! finishes with its output or reports the keys that it could not look
//! up; in that case it has changed nothing and emitted nothing.

use vstd::prelude::*;
use crate::state::{LookupResult, State};

verus! {

/// One output record of a counting aggregation: the total of `key` went
/// from `before` to `after`.
#[derive(Clone, Copy, Debug, PartialEq, Eq, Structural)]
pub struct Delta {
    pub key: i64,
    pub before: usize,
    pub after: usize,
}

/// One output record of a join: the record that came in, with one of
/// the rows that the other side holds for its key.
#[derive(Clone, Copy, Debug, PartialEq, Eq, Structural)]
pub struct Joined {
    pub key: i64,
    pub left: i64,
    pub right: i64,
}

/// What processing one packet at one node came to.
pub enum ProcessingResult<R> {
    /// The operator ran; these are its output records.
    Done(Vec<R>),
    /// The operator needed these keys from a partial state that does not
    /// know them.
    Miss(Vec<i64>),
}

/// The total that the rows of one key stand for: the count in the single
/// row, or 0 where there is none.
pub open spec fn held_count(rows: Seq<usize>) -> nat {
    if rows.len() == 0 {
        0
    } else {
        rows[0] as nat
    }
}

/// Counts one more record for `key` in the aggregation's own state. Where
/// the state knows the key, the new total replaces the old one and the
/// change is the output. Where it does not, the result is a miss and the
/// state is left exactly as it was.
pub fn count_up(state: &mut State<usize>, key: i64) -> (r: ProcessingResult<Delta>)
    requires
        old(state).wf(),
        held_count(old(state).rows_of(key)) < usize::MAX,
    ensures
        final(state).wf(),
        final(state).same_elsewhere(old(state), key),
        match r {
            ProcessingResult::Done(out) => {
                &&& old(state).knows(key)
                &&& out@ == seq![
                    (Delta {
                        key,
                        before: held_count(old(state).rows_of(key)) as usize,
                        after: (held_count(old(state).rows_of(key)) + 1) as usize,
                    }),
                ]
                &&& final(state).holds(key)
                &&& final(state).rows_of(key) == seq![
                    (held_count(old(state).rows_of(key)) + 1) as usize,
                ]
            },
            ProcessingResult::Miss(keys) => {
                &&& !old(state).knows(key)
                &&& keys@ == seq![key]
                &&& final(state).contents() == old(state).contents()
            },
        },
{
    let current: Option<usize> = match state.lookup(key) {
        LookupResult::Hit(rows) => Some(rows[0]),
        LookupResult::Hole => Some(0),
        LookupResult::Miss => None,
    };
    match current {
        Some(before) => {
            let ghost start = *state;
            state.remove(key);
            proof {
                start.rows_bounded(key);
            }
            state.insert(key, before + 1);
            let mut out: Vec<Delta> = Vec::new();
            out.push(Delta { key, before, after: before + 1 });
            proof {
                assert(state.rows_of(key) =~= seq![(before + 1) as usize]);
                assert(out@ =~= seq![Delta { key, before, after: (before + 1) as usize }]);
            }
            ProcessingResult::Done(out)
        },
        None => {
            let mut keys: Vec<i64> = Vec::new();
            keys.push(key);
            assert(keys@ =~= seq![key]);
            ProcessingResult::Miss(keys)
        },
    }
}

/// The output of joining one record with the rows of the other side:
/// one output record for each row, in the rows' order.
pub open spec fn joined_with(key: i64, left: i64, rows: Seq<i64>) -> Seq<Joined> {
    Seq::new(rows.len(), |i: int| Joined { key, left, right: rows[i] })
}

/// Joins the record `left` that came in under `key` with the state of the
/// other side. Where that state does not know the key the result is a
/// miss and nothing is emitted: the packet has to wait for a replay.
pub fn join_probe(key: i64, left: i64, other: &State<i64>) -> (r: ProcessingResult<Joined>)
    requires
        other.wf(),
    ensures
        match r {
            ProcessingResult::Done(out) => other.knows(key) && out@ == joined_with(
                key,
                left,
                other.rows_of(key),
            ),
            ProcessingResult::Miss(keys) => !other.knows(key) && keys@ == seq![key],
        },
{
    match other.lookup(key) {
        LookupResult::Hit(rows) => {
            let mut out: Vec<Joined> = Vec::new();
            let mut i: usize = 0;
            while i < rows.len()
                invariant
                    i <= rows@.len(),
                    out@.len() == i,
                    forall|j: int|
                        0 <= j < i ==> out@[j] == (Joined { key, left, right: rows@[j] }),
                decreases rows@.len() - i,
            {
                out.push(Joined { key, left, right: rows[i] });
                i += 1;
            }
            assert(out@ =~= joined_with(key, left, rows@));
            ProcessingResult::Done(out)
        },
        LookupResult::Hole => {
            let out: Vec<Joined> = Vec::new();
            assert(out@ =~= joined_with(key, left, other.rows_of(key)));
            ProcessingResult::Done(out)
        },
        LookupResult::Miss => {
            let mut keys: Vec<i64> = Vec::new();
            keys.push(key);
            assert(keys@ =~= seq![key]);
            ProcessingResult::Miss(keys)
        },
    }
}

} // verus!
