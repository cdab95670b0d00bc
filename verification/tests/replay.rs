use dataflow::domain::{on_fill, on_miss, Action, Domain, DomainError, Event, MissOutcome, Mode};
use dataflow::replay::{ReplayTracker, Trigger};
use dataflow::state::{LookupResult, State};

#[test]
fn only_the_first_miss_issues_a_replay() {
    let mut t = ReplayTracker::new(8);
    assert_eq!(t.request(3, 42, 100), Trigger::Issue);
    assert_eq!(t.request(3, 42, 101), Trigger::Join);
    assert_eq!(t.request(3, 42, 102), Trigger::Join);
    assert_eq!(t.len(), 1);
    assert!(t.is_in_flight(3, 42));
    assert!(!t.is_in_flight(3, 43));
    assert!(!t.is_in_flight(4, 42));
    assert_eq!(t.request(4, 42, 103), Trigger::Issue);
    assert_eq!(t.request(3, 43, 104), Trigger::Issue);
    assert_eq!(t.len(), 3);
}

#[test]
fn completion_wakes_the_waiters_in_arrival_order() {
    let mut t = ReplayTracker::new(8);
    t.request(1, 5, 30);
    t.request(2, 5, 31);
    t.request(1, 5, 32);
    t.request(1, 5, 33);
    assert_eq!(t.complete(1, 5), Some(vec![30, 32, 33]));
    assert_eq!(t.complete(1, 5), None);
    assert!(t.is_in_flight(2, 5));
    assert_eq!(t.complete(2, 5), Some(vec![31]));
    assert_eq!(t.len(), 0);
    assert_eq!(t.request(1, 5, 34), Trigger::Issue);
}

#[test]
fn a_full_tracker_refuses_new_keys_but_lets_waiters_join() {
    let mut t = ReplayTracker::new(2);
    assert_eq!(t.request(0, 1, 1), Trigger::Issue);
    assert_eq!(t.request(0, 2, 2), Trigger::Issue);
    assert_eq!(t.request(0, 3, 3), Trigger::Refuse);
    assert!(!t.is_in_flight(0, 3));
    assert_eq!(t.request(0, 1, 4), Trigger::Join);
    assert_eq!(t.complete(0, 2), Some(vec![2]));
    assert_eq!(t.request(0, 3, 3), Trigger::Issue);
    let mut none = ReplayTracker::new(0);
    assert_eq!(none.request(0, 0, 0), Trigger::Refuse);
}

#[test]
fn a_known_key_never_starts_a_replay() {
    let mut s: State<i64> = State::new(true);
    let mut t = ReplayTracker::new(4);
    assert_eq!(on_miss(&s, &mut t, 7, 1, 50), MissOutcome::Replay(Trigger::Issue));
    assert_eq!(on_miss(&s, &mut t, 7, 1, 51), MissOutcome::Replay(Trigger::Join));
    assert_eq!(on_fill(&mut s, &mut t, 7, 1, vec![11, 12]), Some(vec![50, 51]));
    assert_eq!(on_miss(&s, &mut t, 7, 1, 52), MissOutcome::Known);
    assert_eq!(t.len(), 0);
    assert!(!t.is_in_flight(7, 1));
    match s.lookup(1) {
        LookupResult::Hit(rows) => assert_eq!(rows, &vec![11, 12]),
        _ => panic!("the key was filled"),
    }
    let full: State<i64> = State::new(false);
    assert_eq!(on_miss(&full, &mut t, 7, 9, 53), MissOutcome::Known);
}

#[test]
fn a_second_fill_is_a_no_op() {
    let mut s: State<i64> = State::new(true);
    let mut t = ReplayTracker::new(4);
    on_miss(&s, &mut t, 0, 1, 1);
    assert_eq!(on_fill(&mut s, &mut t, 0, 1, vec![5]), Some(vec![1]));
    assert_eq!(on_fill(&mut s, &mut t, 0, 1, vec![6, 7]), None);
    match s.lookup(1) {
        LookupResult::Hit(rows) => assert_eq!(rows, &vec![5]),
        _ => panic!("the key was filled"),
    }
}

#[test]
fn the_domain_stalls_and_resumes() {
    let mut d = Domain::new();
    assert_eq!(d.step(Event::Packet), Ok(Action::Run));
    assert_eq!(d.mode, Mode::Processing);
    assert_eq!(d.step(Event::Miss), Ok(Action::RequestReplay));
    assert_eq!((d.mode, d.stalled), (Mode::AwaitingReplay, 1));
    assert_eq!(d.step(Event::Packet), Ok(Action::Run));
    assert_eq!(d.step(Event::Done), Ok(Action::Forward));
    assert_eq!((d.mode, d.stalled), (Mode::AwaitingReplay, 1));
    assert_eq!(d.step(Event::ReplayFilled), Ok(Action::Resume));
    assert_eq!((d.mode, d.stalled), (Mode::Processing, 0));
    assert_eq!(d.step(Event::Done), Ok(Action::Forward));
    assert_eq!((d.mode, d.stalled), (Mode::Idle, 0));
}

#[test]
fn the_domain_rejects_what_cannot_happen() {
    let mut d = Domain::new();
    assert_eq!(d.step(Event::Done), Err(DomainError::ProtocolViolation));
    assert_eq!(d.step(Event::ReplayFilled), Err(DomainError::ProtocolViolation));
    assert_eq!(d.step(Event::Drained), Err(DomainError::ProtocolViolation));
    assert_eq!(d, Domain::new());
    d.step(Event::Packet).unwrap();
    assert_eq!(d.step(Event::Packet), Err(DomainError::ProtocolViolation));
    assert_eq!(d.step(Event::Drain), Err(DomainError::ProtocolViolation));
    assert_eq!(d.mode, Mode::Processing);
    let mut full = Domain { mode: Mode::Processing, stalled: usize::MAX };
    assert_eq!(full.step(Event::Miss), Err(DomainError::Saturated));
    assert_eq!(full.stalled, usize::MAX);
}

#[test]
fn a_draining_domain_holds_packets_back() {
    let mut d = Domain::new();
    assert_eq!(d.step(Event::Drain), Ok(Action::Handoff));
    assert_eq!(d.mode, Mode::Draining);
    assert_eq!(d.step(Event::Packet), Ok(Action::Hold));
    assert_eq!(d.mode, Mode::Draining);
    assert_eq!(d.step(Event::Drained), Ok(Action::Reopen));
    assert_eq!(d.mode, Mode::Idle);
    let mut w = Domain { mode: Mode::AwaitingReplay, stalled: 2 };
    assert_eq!(w.step(Event::Drain), Ok(Action::Handoff));
    assert_eq!(w.step(Event::Drained), Ok(Action::Reopen));
    assert_eq!((w.mode, w.stalled), (Mode::AwaitingReplay, 2));
}
