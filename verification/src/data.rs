//! Column values and the rows that the vote workload writes and reads.

use vstd::prelude::*;
use crate::votes::ArticleResult;

verus! {

/// One column value.
#[derive(Clone, Debug, PartialEq, Eq)]
pub enum DataType {
    Null,
    Int(i64),
    Text(String),
}

/// The base table of articles, as the client addresses it.
pub const ARTICLE_NODE: usize = 1;

/// The base table of votes.
pub const VOTE_NODE: usize = 2;

/// The view that joins each article with its vote count.
pub const END_NODE: usize = 4;

/// The row written for an article: its id, then its title.
pub fn article_row(id: i64, title: String) -> (row: Vec<DataType>)
    ensures
        row@ == seq![DataType::Int(id), DataType::Text(title)],
{
    let mut row: Vec<DataType> = Vec::new();
    row.push(DataType::Int(id));
    row.push(DataType::Text(title));
    row
}

/// The row written for a vote: the user, then the article.
pub fn vote_row(user: i64, article: i64) -> (row: Vec<DataType>)
    ensures
        row@ == seq![DataType::Int(user), DataType::Int(article)],
{
    let mut row: Vec<DataType> = Vec::new();
    row.push(DataType::Int(user));
    row.push(DataType::Int(article));
    row
}

/// Whether `row` has the shape of the joined view: an id, a title, a count.
pub open spec fn is_article_row(row: Seq<DataType>) -> bool {
    &&& row.len() >= 3
    &&& row[0] is Int
    &&& row[1] is Text
    &&& row[2] is Int
}

/// The answer that the rows of one query stand for: the first row read as
/// an article, or no article where the query returned no row.
pub open spec fn article_of(rows: Seq<Vec<DataType>>) -> ArticleResult {
    if rows.len() == 0 {
        ArticleResult::NoSuchArticle
    } else {
        (ArticleResult::Article {
            id: rows[0]@[0]->Int_0,
            title: rows[0]@[1]->Text_0,
            votes: rows[0]@[2]->Int_0,
        })
    }
}

/// Whether `row` has the shape of the joined view.
pub fn check_article_row(row: &Vec<DataType>) -> (ok: bool)
    ensures
        ok == is_article_row(row@),
{
    if row.len() < 3 {
        return false;
    }
    let id_ok: bool = match &row[0] {
        DataType::Int(_) => true,
        _ => false,
    };
    let title_ok: bool = match &row[1] {
        DataType::Text(_) => true,
        _ => false,
    };
    let votes_ok: bool = match &row[2] {
        DataType::Int(_) => true,
        _ => false,
    };
    id_ok && title_ok && votes_ok
}

/// Reads the rows that a query of the joined view returned.
pub fn article_result(rows: &Vec<Vec<DataType>>) -> (r: ArticleResult)
    requires
        rows@.len() > 0 ==> is_article_row(rows@[0]@),
    ensures
        r == article_of(rows@),
{
    if rows.len() == 0 {
        return ArticleResult::NoSuchArticle;
    }
    let row: &Vec<DataType> = &rows[0];
    let id: i64 = match &row[0] {
        DataType::Int(v) => *v,
        _ => 0,
    };
    let votes: i64 = match &row[2] {
        DataType::Int(v) => *v,
        _ => 0,
    };
    let title: String = match &row[1] {
        DataType::Text(t) => t.clone(),
        _ => String::new(),
    };
    ArticleResult::Article { id, title, votes }
}

/// What to do after one attempt to connect.
#[derive(Clone, Copy, Debug, PartialEq, Eq, Structural)]
pub enum ConnectStep {
    /// The attempt succeeded: use the connection.
    Use,
    /// Wait this many milliseconds, then try again.
    Retry(u64),
    /// Wait this many milliseconds, then give up: every attempt failed.
    GiveUp(u64),
}

/// How many times a client tries to connect.
pub const CONNECT_ATTEMPTS: u32 = 3;

/// How long a client waits after a failed attempt, in milliseconds.
pub const CONNECT_PAUSE_MS: u64 = 100;

/// Decides what follows attempt number `attempt`, counted from 0: every
/// failure is followed by a pause, and the last one by giving up.
pub fn connect_step(attempt: u32, connected: bool) -> (s: ConnectStep)
    ensures
        s == (if connected {
            ConnectStep::Use
        } else if attempt < CONNECT_ATTEMPTS - 1 {
            ConnectStep::Retry(CONNECT_PAUSE_MS)
        } else {
            ConnectStep::GiveUp(CONNECT_PAUSE_MS)
        }),
{
    if connected {
        ConnectStep::Use
    } else if attempt < CONNECT_ATTEMPTS - 1 {
        ConnectStep::Retry(CONNECT_PAUSE_MS)
    } else {
        ConnectStep::GiveUp(CONNECT_PAUSE_MS)
    }
}

} // verus!
