use dataflow::state::{LookupResult, State};

fn rows(s: &State<i64>, key: i64) -> Option<Vec<i64>> {
    match s.lookup(key) {
        LookupResult::Hit(r) => Some(r.clone()),
        LookupResult::Hole => Some(vec![]),
        LookupResult::Miss => None,
    }
}

#[test]
fn full_state_never_misses() {
    let mut s: State<i64> = State::new(false);
    assert!(!s.partial());
    assert!(matches!(s.lookup(9), LookupResult::Hole));
    assert!(s.insert(9, 40));
    assert!(s.insert(9, 41));
    assert!(s.insert(2, 7));
    assert_eq!(rows(&s, 9), Some(vec![40, 41]));
    assert_eq!(rows(&s, 2), Some(vec![7]));
    assert_eq!(rows(&s, 3), Some(vec![]));
    assert_eq!(s.count(9), 2);
}

#[test]
fn partial_state_misses_until_filled() {
    let mut s: State<i64> = State::new(true);
    assert!(s.partial());
    assert!(matches!(s.lookup(1), LookupResult::Miss));
    assert!(!s.is_known(1));
    assert!(!s.insert(1, 10));
    assert!(matches!(s.lookup(1), LookupResult::Miss));
    s.mark_filled(1);
    assert!(s.is_known(1));
    assert!(matches!(s.lookup(1), LookupResult::Hole));
    assert!(s.insert(1, 10));
    assert_eq!(rows(&s, 1), Some(vec![10]));
    assert!(matches!(s.lookup(2), LookupResult::Miss));
}

#[test]
fn filling_a_filled_key_changes_nothing() {
    let mut s: State<i64> = State::new(true);
    s.mark_filled(5);
    s.insert(5, 1);
    s.insert(5, 2);
    s.mark_filled(5);
    assert_eq!(rows(&s, 5), Some(vec![1, 2]));
    s.mark_filled(5);
    assert_eq!(rows(&s, 5), Some(vec![1, 2]));
    assert!(!s.fill(5, vec![9, 9, 9]));
    assert_eq!(rows(&s, 5), Some(vec![1, 2]));
}

#[test]
fn fill_brings_the_rows_of_a_replay() {
    let mut s: State<i64> = State::new(true);
    assert!(s.fill(3, vec![8, 6]));
    assert_eq!(rows(&s, 3), Some(vec![8, 6]));
    assert!(s.fill(4, vec![]));
    assert!(matches!(s.lookup(4), LookupResult::Hole));
}

#[test]
fn mark_hole_makes_a_key_known_and_empty() {
    let mut s: State<i64> = State::new(true);
    s.mark_hole(7);
    assert!(matches!(s.lookup(7), LookupResult::Hole));
    s.insert(7, 1);
    assert_eq!(rows(&s, 7), Some(vec![1]));
    s.mark_hole(7);
    assert!(matches!(s.lookup(7), LookupResult::Hole));
}

#[test]
fn remove_drops_the_rows_of_one_key_only() {
    let mut s: State<i64> = State::new(false);
    s.insert(1, 10);
    s.insert(1, 11);
    s.insert(2, 20);
    assert_eq!(s.remove(1), 2);
    assert_eq!(s.remove(1), 0);
    assert_eq!(s.remove(3), 0);
    assert_eq!(rows(&s, 1), Some(vec![]));
    assert_eq!(rows(&s, 2), Some(vec![20]));
}

#[test]
fn evict_makes_a_partial_key_unknown_again() {
    let mut s: State<i64> = State::new(true);
    s.fill(1, vec![10]);
    s.fill(2, vec![20]);
    assert!(s.evict(1));
    assert!(!s.evict(1));
    assert!(matches!(s.lookup(1), LookupResult::Miss));
    assert_eq!(rows(&s, 2), Some(vec![20]));
    let mut f: State<i64> = State::new(false);
    f.insert(1, 10);
    assert!(!f.evict(1));
    assert_eq!(rows(&f, 1), Some(vec![10]));
}
