//! The read and write interface that clients see: records go in by the
//! index of a base table, and rows come out of the joined view by key.

use vstd::prelude::*;
use crate::data::{article_of, is_article_row, DataType, ARTICLE_NODE, END_NODE, VOTE_NODE};
use crate::votes::{expected, ArticleResult, VoteGraph, Write};

verus! {

/// Why a request was refused.
#[derive(Clone, Copy, Debug, PartialEq, Eq, Structural)]
pub enum RpcError {
    /// The index names no table that can be written, or no view that can
    /// be read.
    UnknownView,
    /// The record does not have the columns of its table, or the key is
    /// not a number.
    MalformedRecord,
}

/// The write that a record for table `view` stands for.
pub open spec fn record_of(view: usize, data: Seq<DataType>) -> Result<Write, RpcError> {
    if view == ARTICLE_NODE {
        if data.len() == 2 && data[0] is Int && data[1] is Text {
            Ok(Write::Article { id: data[0]->Int_0, title: data[1]->Text_0 })
        } else {
            Err(RpcError::MalformedRecord)
        }
    } else if view == VOTE_NODE {
        if data.len() == 2 && data[0] is Int && data[1] is Int {
            Ok(Write::Vote { user: data[0]->Int_0, article: data[1]->Int_0 })
        } else {
            Err(RpcError::MalformedRecord)
        }
    } else {
        Err(RpcError::UnknownView)
    }
}

/// The rows that stand for an answer: one row with id, title and count
/// for an article, no row for none.
pub open spec fn rows_of(answer: ArticleResult, rows: Seq<Vec<DataType>>) -> bool {
    match answer {
        ArticleResult::NoSuchArticle => rows.len() == 0,
        ArticleResult::Article { id, title, votes } => rows.len() == 1 && rows[0]@ == seq![
            DataType::Int(id),
            DataType::Text(title),
            DataType::Int(votes),
        ],
    }
}

/// One store, as a client holds it.
pub struct C {
    graph: VoteGraph,
}

impl C {
    pub closed spec fn wf(&self) -> bool {
        self.graph.wf()
    }

    /// Every write accepted so far, in order.
    pub closed spec fn history(&self) -> Seq<Write> {
        self.graph.history()
    }

    /// An empty store whose joined view is partial or full.
    pub fn new(partial: bool) -> (c: C)
        ensures
            c.wf(),
            c.history() == Seq::<Write>::empty(),
    {
        C { graph: VoteGraph::new(partial) }
    }

    /// Appends a record to the base table `view`. A record that does not
    /// fit its table, or a `view` that is no base table, is refused and
    /// nothing is written.
    pub fn insert(&mut self, view: usize, data: Vec<DataType>) -> (r: Result<(), RpcError>)
        requires
            old(self).wf(),
        ensures
            final(self).wf(),
            match record_of(view, data@) {
                Ok(w) => r.is_ok() && final(self).history() == old(self).history().push(w),
                Err(e) => r == Err::<(), RpcError>(e) && final(self).history() == old(
                    self,
                ).history(),
            },
    {
        if view != ARTICLE_NODE && view != VOTE_NODE {
            return Err(RpcError::UnknownView);
        }
        if data.len() != 2 {
            return Err(RpcError::MalformedRecord);
        }
        let first: i64 = match &data[0] {
            DataType::Int(v) => *v,
            _ => {
                return Err(RpcError::MalformedRecord);
            },
        };
        if view == ARTICLE_NODE {
            match &data[1] {
                DataType::Text(t) => {
                    let title: String = t.clone();
                    self.graph.write(Write::Article { id: first, title });
                    Ok(())
                },
                _ => Err(RpcError::MalformedRecord),
            }
        } else {
            match &data[1] {
                DataType::Int(article) => {
                    self.graph.write(Write::Vote { user: first, article: *article });
                    Ok(())
                },
                _ => Err(RpcError::MalformedRecord),
            }
        }
    }

    /// Reads the joined view at `key`: the article's row, or no row where
    /// no such article was written. A miss in a partial view is replayed
    /// before the answer is given, so the caller never sees it.
    pub fn query(&mut self, view: usize, key: DataType) -> (r: Result<Vec<Vec<DataType>>, RpcError>)
        requires
            old(self).wf(),
        ensures
            final(self).wf(),
            final(self).history() == old(self).history(),
            match r {
                Ok(rows) => view == END_NODE && key is Int && rows_of(
                    expected(old(self).history(), key->Int_0),
                    rows@,
                ) && article_of(rows@) == expected(old(self).history(), key->Int_0) && (rows@.len()
                    > 0 ==> is_article_row(rows@[0]@)),
                Err(e) => e == (if view != END_NODE {
                    RpcError::UnknownView
                } else {
                    RpcError::MalformedRecord
                }) && (view != END_NODE || !(key is Int)),
            },
    {
        if view != END_NODE {
            return Err(RpcError::UnknownView);
        }
        let id: i64 = match key {
            DataType::Int(v) => v,
            _ => {
                return Err(RpcError::MalformedRecord);
            },
        };
        let mut rows: Vec<Vec<DataType>> = Vec::new();
        match self.graph.read(id) {
            ArticleResult::Article { id, title, votes } => {
                let ghost want = seq![DataType::Int(id), DataType::Text(title), DataType::Int(votes)];
                let mut row: Vec<DataType> = Vec::new();
                row.push(DataType::Int(id));
                row.push(DataType::Text(title));
                row.push(DataType::Int(votes));
                assert(row@ =~= want);
                rows.push(row);
                assert(rows@[0]@ == want);
                assert(want[0] is Int && want[1] is Text && want[2] is Int);
            },
            ArticleResult::NoSuchArticle => {},
        }
        Ok(rows)
    }
}

} // verus!
