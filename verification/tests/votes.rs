use dataflow::channel::{Coordinator, Dispatch, Packet};
use dataflow::data::{
    article_result, article_row, check_article_row, connect_step, vote_row, ConnectStep, DataType,
    ARTICLE_NODE, END_NODE, VOTE_NODE,
};
use dataflow::provenance::{Provenance, ProvenanceUpdate};
use dataflow::votes::{ArticleResult, VoteGraph, Votes, Write};

fn article(id: i64, title: &str) -> Write {
    Write::Article { id, title: title.to_string() }
}

fn vote(user: i64, article: i64) -> Write {
    Write::Vote { user, article }
}

fn found(id: i64, title: &str, votes: i64) -> ArticleResult {
    ArticleResult::Article { id, title: title.to_string(), votes }
}

#[test]
fn two_votes_for_one_article() {
    for partial in [false, true] {
        let mut g = VoteGraph::new(partial);
        g.write(article(1, "A"));
        g.write(vote(10, 1));
        g.write(vote(11, 1));
        assert_eq!(g.read(1), found(1, "A", 2));
    }
}

#[test]
fn an_article_that_was_never_written() {
    for partial in [false, true] {
        let mut g = VoteGraph::new(partial);
        assert_eq!(g.read(1), ArticleResult::NoSuchArticle);
        g.write(vote(10, 1));
        assert_eq!(g.read(1), ArticleResult::NoSuchArticle);
        g.write(article(2, "B"));
        assert_eq!(g.read(1), ArticleResult::NoSuchArticle);
        assert_eq!(g.read(2), found(2, "B", 0));
    }
}

#[test]
fn a_read_reflects_every_write_so_far() {
    let writes = vec![
        article(1, "A"),
        vote(1, 1),
        article(2, "B"),
        vote(2, 2),
        vote(3, 1),
        article(1, "again"),
        vote(4, 1),
        vote(5, 3),
    ];
    let mut g = VoteGraph::new(false);
    let mut votes_for_1 = 0;
    for w in writes {
        if w == vote(1, 1) || w == vote(3, 1) || w == vote(4, 1) {
            votes_for_1 += 1;
        }
        g.write(w);
        assert_eq!(g.lookup(1), Votes::Count(votes_for_1));
    }
    assert_eq!(g.read(1), found(1, "A", 3));
    assert_eq!(g.read(2), found(2, "B", 1));
    assert_eq!(g.read(3), ArticleResult::NoSuchArticle);
    assert_eq!(g.lookup(3), Votes::Count(1));
}

#[test]
fn a_partial_view_answers_as_a_full_one() {
    let mut partial = VoteGraph::new(true);
    let mut full = VoteGraph::new(false);
    let writes = vec![article(1, "A"), vote(1, 1), vote(2, 1), article(2, "B"), vote(1, 2)];
    for w in writes {
        partial.write(w.clone());
        full.write(w);
    }
    assert_eq!(partial.lookup(1), Votes::Miss);
    assert_eq!(full.lookup(1), Votes::Count(2));
    assert_eq!(partial.read(1), full.read(1));
    assert_eq!(partial.lookup(1), Votes::Count(2));
    assert_eq!(partial.lookup(2), Votes::Miss);
    partial.write(vote(3, 1));
    partial.write(vote(3, 2));
    full.write(vote(3, 1));
    full.write(vote(3, 2));
    assert_eq!(partial.lookup(1), Votes::Count(3));
    assert_eq!(partial.lookup(2), Votes::Miss);
    assert_eq!(partial.read(2), full.read(2));
    assert_eq!(partial.read(2), found(2, "B", 2));
    assert_eq!(partial.read(1), found(1, "A", 3));
}

#[test]
fn a_replay_runs_once_per_key() {
    let mut g = VoteGraph::new(true);
    g.write(vote(1, 4));
    assert!(g.replay(4));
    assert!(!g.replay(4));
    assert_eq!(g.lookup(4), Votes::Count(1));
    g.evict(4);
    assert_eq!(g.lookup(4), Votes::Miss);
    g.write(vote(2, 4));
    assert!(g.replay(4));
    assert_eq!(g.lookup(4), Votes::Count(2));
    let mut full = VoteGraph::new(false);
    assert!(!full.replay(4));
    full.evict(4);
    assert_eq!(full.lookup(4), Votes::Count(0));
}

#[test]
fn a_restart_does_not_count_acknowledged_votes_twice() {
    let addr = (0, 0);
    let mut c = Coordinator::new(16);
    let mut g = VoteGraph::new(false);
    let mut seen = Provenance::new();
    g.write(article(1, "A"));
    assert!(c.connect(addr, 77).is_some());
    let mut outbox = vec![];
    for user in [10, 11] {
        let p = Packet::Input { node: VOTE_NODE, key: 1, replay: None };
        match c.send(addr, p) {
            Dispatch::Deliver { endpoint, seq } => {
                assert_eq!(endpoint, 77);
                if seen.apply(ProvenanceUpdate { shard: 0, count: seq + 1 }) {
                    g.write(vote(user, 1));
                }
                outbox.push((seq, user));
            }
            other => panic!("expected a delivery, got {:?}", other),
        }
    }
    assert!(c.disconnect(addr));
    assert_eq!(c.send(addr, Packet::Input { node: VOTE_NODE, key: 1, replay: None }), Dispatch::Queued);
    let resume = c.connect(addr, 78).unwrap();
    assert_eq!(resume.marker, Packet::ResumeAt { seq: 2 });
    assert_eq!(resume.backlog.len(), 1);
    for (seq, user) in outbox {
        assert!(seq < 2);
        if seen.apply(ProvenanceUpdate { shard: 0, count: seq + 1 }) {
            g.write(vote(user, 1));
        }
    }
    if seen.apply(ProvenanceUpdate { shard: 0, count: 3 }) {
        g.write(vote(12, 1));
    }
    assert_eq!(g.read(1), found(1, "A", 3));
}

#[test]
fn rows_of_the_vote_workload() {
    assert_eq!((ARTICLE_NODE, VOTE_NODE, END_NODE), (1, 2, 4));
    assert_eq!(
        article_row(7, "title".to_string()),
        vec![DataType::Int(7), DataType::Text("title".to_string())]
    );
    assert_eq!(vote_row(3, 7), vec![DataType::Int(3), DataType::Int(7)]);
}

#[test]
fn query_rows_become_an_article() {
    let row = vec![DataType::Int(1), DataType::Text("A".to_string()), DataType::Int(2)];
    assert!(check_article_row(&row));
    let other = vec![DataType::Int(9), DataType::Text("Z".to_string()), DataType::Int(0)];
    assert_eq!(article_result(&vec![row.clone(), other]), found(1, "A", 2));
    assert_eq!(article_result(&vec![]), ArticleResult::NoSuchArticle);
    assert!(!check_article_row(&vec![DataType::Int(1), DataType::Text("A".to_string())]));
    assert!(!check_article_row(&vec![DataType::Int(1), DataType::Int(1), DataType::Int(2)]));
    assert!(!check_article_row(&vec![
        DataType::Null,
        DataType::Text("A".to_string()),
        DataType::Int(2)
    ]));
    assert!(!check_article_row(&vec![
        DataType::Int(1),
        DataType::Text("A".to_string()),
        DataType::Text("2".to_string())
    ]));
}

#[test]
fn a_client_tries_three_times() {
    assert_eq!(connect_step(0, true), ConnectStep::Use);
    assert_eq!(connect_step(2, true), ConnectStep::Use);
    assert_eq!(connect_step(0, false), ConnectStep::Retry(100));
    assert_eq!(connect_step(1, false), ConnectStep::Retry(100));
    assert_eq!(connect_step(2, false), ConnectStep::GiveUp(100));
    assert_eq!(connect_step(3, false), ConnectStep::GiveUp(100));
}
