use dataflow::channel::{Coordinator, Dispatch, Packet};

fn input(key: i64) -> Packet {
    Packet::Input { node: 2, key, replay: None }
}

#[test]
fn packets_to_a_live_endpoint_are_numbered_in_order() {
    let mut c = Coordinator::new(4);
    let r = c.connect((1, 0), 500).unwrap();
    assert_eq!(r.marker, Packet::ResumeAt { seq: 0 });
    assert!(r.backlog.is_empty());
    assert_eq!(c.send((1, 0), input(1)), Dispatch::Deliver { endpoint: 500, seq: 0 });
    assert_eq!(c.send((1, 0), input(2)), Dispatch::Deliver { endpoint: 500, seq: 1 });
    assert_eq!(c.send((1, 0), Packet::Ack { tag: 3 }), Dispatch::Deliver { endpoint: 500, seq: 2 });
    assert_eq!(c.queued((1, 0)), 0);
}

#[test]
fn packets_to_a_dead_endpoint_wait_in_order() {
    let mut c = Coordinator::new(3);
    c.connect((1, 0), 500);
    c.send((1, 0), input(1));
    assert!(c.disconnect((1, 0)));
    assert!(!c.disconnect((1, 0)));
    assert_eq!(c.send((1, 0), input(2)), Dispatch::Queued);
    assert_eq!(c.send((1, 0), Packet::ReplayRequest { tag: 9, node: 1, key: 4 }), Dispatch::Queued);
    assert_eq!(c.send((1, 0), input(3)), Dispatch::Queued);
    assert_eq!(c.queued((1, 0)), 3);
    assert_eq!(c.send((1, 0), input(4)), Dispatch::Pause);
    assert_eq!(c.queued((1, 0)), 3);
    let r = c.connect((1, 0), 501).unwrap();
    assert_eq!(r.marker, Packet::ResumeAt { seq: 1 });
    assert_eq!(
        r.backlog,
        vec![input(2), Packet::ReplayRequest { tag: 9, node: 1, key: 4 }, input(3)]
    );
    assert_eq!(c.queued((1, 0)), 0);
    assert_eq!(c.send((1, 0), input(4)), Dispatch::Deliver { endpoint: 501, seq: 4 });
}

#[test]
fn replicas_do_not_disturb_each_other() {
    let mut c = Coordinator::new(2);
    c.connect((1, 0), 10);
    assert_eq!(c.send((1, 1), input(1)), Dispatch::Queued);
    assert_eq!(c.send((2, 0), input(2)), Dispatch::Queued);
    assert_eq!(c.send((1, 0), input(3)), Dispatch::Deliver { endpoint: 10, seq: 0 });
    assert_eq!(c.queued((1, 1)), 1);
    assert_eq!(c.queued((2, 0)), 1);
    assert!(!c.disconnect((1, 1)));
    let r = c.connect((1, 1), 11).unwrap();
    assert_eq!(r.marker, Packet::ResumeAt { seq: 0 });
    assert_eq!(r.backlog, vec![input(1)]);
    assert_eq!(c.send((1, 1), input(4)), Dispatch::Deliver { endpoint: 11, seq: 1 });
    assert_eq!(c.queued((2, 0)), 1);
}

#[test]
fn a_retired_replica_is_forgotten() {
    let mut c = Coordinator::new(2);
    c.connect((3, 1), 10);
    c.send((3, 1), input(1));
    c.disconnect((3, 1));
    c.send((3, 1), Packet::CreateUniverse { universe: 5 });
    assert_eq!(c.uncache_replica((3, 1)), vec![Packet::CreateUniverse { universe: 5 }]);
    assert_eq!(c.queued((3, 1)), 0);
    assert!(c.uncache_replica((3, 1)).is_empty());
    let r = c.connect((3, 1), 12).unwrap();
    assert_eq!(r.marker, Packet::ResumeAt { seq: 0 });
    assert!(r.backlog.is_empty());
}

#[test]
fn a_queue_without_room_pauses_at_once() {
    let mut c = Coordinator::new(0);
    assert_eq!(c.send((0, 0), input(1)), Dispatch::Pause);
    assert_eq!(c.queued((0, 0)), 0);
}
