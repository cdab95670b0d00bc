use dataflow::data::{article_result, DataType, ARTICLE_NODE, END_NODE, VOTE_NODE};
use dataflow::error::{is_fatal, recover, Failure, Recovery};
use dataflow::ops::{count_up, join_probe, Delta, Joined, ProcessingResult};
use dataflow::soup::{RpcError, C};
use dataflow::state::{LookupResult, State};
use dataflow::votes::ArticleResult;

fn text(s: &str) -> DataType {
    DataType::Text(s.to_string())
}

#[test]
fn votes_are_counted_through_the_client_interface() {
    for partial in [false, true] {
        let mut c = C::new(partial);
        assert_eq!(c.insert(ARTICLE_NODE, vec![DataType::Int(1), text("A")]), Ok(()));
        assert_eq!(c.insert(VOTE_NODE, vec![DataType::Int(10), DataType::Int(1)]), Ok(()));
        assert_eq!(c.insert(VOTE_NODE, vec![DataType::Int(11), DataType::Int(1)]), Ok(()));
        let rows = c.query(END_NODE, DataType::Int(1)).unwrap();
        assert_eq!(rows, vec![vec![DataType::Int(1), text("A"), DataType::Int(2)]]);
        assert_eq!(
            article_result(&rows),
            ArticleResult::Article { id: 1, title: "A".to_string(), votes: 2 }
        );
    }
}

#[test]
fn an_unknown_article_reads_as_no_rows() {
    for partial in [false, true] {
        let mut c = C::new(partial);
        let rows = c.query(END_NODE, DataType::Int(1)).unwrap();
        assert!(rows.is_empty());
        assert_eq!(article_result(&rows), ArticleResult::NoSuchArticle);
    }
}

#[test]
fn malformed_requests_are_refused() {
    let mut c = C::new(true);
    assert_eq!(c.insert(3, vec![DataType::Int(1), text("A")]), Err(RpcError::UnknownView));
    assert_eq!(c.insert(END_NODE, vec![]), Err(RpcError::UnknownView));
    assert_eq!(c.insert(ARTICLE_NODE, vec![DataType::Int(1)]), Err(RpcError::MalformedRecord));
    assert_eq!(
        c.insert(ARTICLE_NODE, vec![DataType::Int(1), DataType::Int(2)]),
        Err(RpcError::MalformedRecord)
    );
    assert_eq!(
        c.insert(ARTICLE_NODE, vec![text("1"), text("A")]),
        Err(RpcError::MalformedRecord)
    );
    assert_eq!(
        c.insert(VOTE_NODE, vec![DataType::Int(1), text("A")]),
        Err(RpcError::MalformedRecord)
    );
    assert_eq!(
        c.insert(VOTE_NODE, vec![DataType::Int(1), DataType::Int(1), DataType::Int(1)]),
        Err(RpcError::MalformedRecord)
    );
    assert_eq!(
        c.insert(VOTE_NODE, vec![DataType::Null, DataType::Int(1)]),
        Err(RpcError::MalformedRecord)
    );
    assert_eq!(c.query(ARTICLE_NODE, DataType::Int(1)), Err(RpcError::UnknownView));
    assert_eq!(c.query(END_NODE, text("1")), Err(RpcError::MalformedRecord));
    assert_eq!(c.query(END_NODE, DataType::Null), Err(RpcError::MalformedRecord));
    assert_eq!(c.insert(ARTICLE_NODE, vec![DataType::Int(1), text("A")]), Ok(()));
    assert_eq!(
        c.query(END_NODE, DataType::Int(1)),
        Ok(vec![vec![DataType::Int(1), text("A"), DataType::Int(0)]])
    );
}

#[test]
fn counting_replaces_the_old_total() {
    let mut s: State<usize> = State::new(false);
    match count_up(&mut s, 5) {
        ProcessingResult::Done(out) => assert_eq!(out, vec![Delta { key: 5, before: 0, after: 1 }]),
        ProcessingResult::Miss(_) => panic!("a full state never misses"),
    }
    match count_up(&mut s, 5) {
        ProcessingResult::Done(out) => assert_eq!(out, vec![Delta { key: 5, before: 1, after: 2 }]),
        ProcessingResult::Miss(_) => panic!("a full state never misses"),
    }
    match s.lookup(5) {
        LookupResult::Hit(rows) => assert_eq!(rows, &vec![2]),
        _ => panic!("the key holds its total"),
    }
    assert!(matches!(s.lookup(6), LookupResult::Hole));
}

#[test]
fn a_miss_changes_nothing() {
    let mut s: State<usize> = State::new(true);
    match count_up(&mut s, 5) {
        ProcessingResult::Miss(keys) => assert_eq!(keys, vec![5]),
        ProcessingResult::Done(_) => panic!("the key was never filled"),
    }
    assert!(matches!(s.lookup(5), LookupResult::Miss));
    s.fill(5, vec![7]);
    match count_up(&mut s, 5) {
        ProcessingResult::Done(out) => assert_eq!(out, vec![Delta { key: 5, before: 7, after: 8 }]),
        ProcessingResult::Miss(_) => panic!("the key was filled"),
    }
}

#[test]
fn each_failure_has_its_recovery() {
    assert_eq!(recover(Failure::TransientMiss), Recovery::Replay);
    assert_eq!(recover(Failure::ConnectionFailure), Recovery::Reconnect);
    assert_eq!(recover(Failure::Timeout), Recovery::RetryLater);
    assert_eq!(recover(Failure::ProtocolViolation), Recovery::Escalate);
    assert_eq!(recover(Failure::DurabilityFailure), Recovery::Escalate);
    assert!(is_fatal(Failure::ProtocolViolation));
    assert!(is_fatal(Failure::DurabilityFailure));
    assert!(!is_fatal(Failure::TransientMiss));
    assert!(!is_fatal(Failure::ConnectionFailure));
    assert!(!is_fatal(Failure::Timeout));
}

#[test]
fn a_join_pairs_a_record_with_every_row_of_the_other_side() {
    let mut other: State<i64> = State::new(true);
    match join_probe(1, 100, &other) {
        ProcessingResult::Miss(keys) => assert_eq!(keys, vec![1]),
        ProcessingResult::Done(_) => panic!("the key was never filled"),
    }
    other.fill(1, vec![7, 8]);
    other.mark_hole(2);
    match join_probe(1, 100, &other) {
        ProcessingResult::Done(out) => assert_eq!(
            out,
            vec![
                Joined { key: 1, left: 100, right: 7 },
                Joined { key: 1, left: 100, right: 8 }
            ]
        ),
        ProcessingResult::Miss(_) => panic!("the key was filled"),
    }
    match join_probe(2, 100, &other) {
        ProcessingResult::Done(out) => assert!(out.is_empty()),
        ProcessingResult::Miss(_) => panic!("the key is known to be empty"),
    }
    let full: State<i64> = State::new(false);
    match join_probe(3, 100, &full) {
        ProcessingResult::Done(out) => assert!(out.is_empty()),
        ProcessingResult::Miss(_) => panic!("a full state never misses"),
    }
}
