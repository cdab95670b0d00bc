//! The domain executor: one single-threaded unit that takes packets one
//! at a time, stalls those that miss until their replay comes back, and
//! holds new packets back while it is being drained for a migration.
//!
//! The executor itself does no sending or receiving. `Domain::step` takes
//! what happened and says what to do next; the caller does it and reports
//! back.

use vstd::prelude::*;
use crate::replay::{ReplayTracker, Trigger};
use crate::state::State;

verus! {

/// Where the executor stands.
#[derive(Clone, Copy, Debug, PartialEq, Eq, Structural)]
pub enum Mode {
    Idle,
    Processing,
    AwaitingReplay,
    Draining,
}

/// What happened.
#[derive(Clone, Copy, Debug, PartialEq, Eq, Structural)]
pub enum Event {
    /// The next packet was taken from the queue.
    Packet,
    /// The operators finished the packet and produced its output.
    Done,
    /// An operator missed in a partial state.
    Miss,
    /// The rows of a replay arrived.
    ReplayFilled,
    /// A migration asks the domain to hand its nodes over.
    Drain,
    /// The handoff is complete.
    Drained,
}

/// What the caller has to do.
#[derive(Clone, Copy, Debug, PartialEq, Eq, Structural)]
pub enum Action {
    /// Run the packet through the local nodes in topological order.
    Run,
    /// Send the output downstream.
    Forward,
    /// Buffer the packet and ask upstream for the missing keys.
    RequestReplay,
    /// Take up the stalled packet where it stopped.
    Resume,
    /// Keep the packet queued until the handoff is over.
    Hold,
    /// Stop taking packets and hand the nodes over.
    Handoff,
    /// Take packets again.
    Reopen,
}

/// Why a step was refused.
#[derive(Clone, Copy, Debug, PartialEq, Eq, Structural)]
pub enum DomainError {
    /// The event cannot happen in this mode: fatal to the domain.
    ProtocolViolation,
    /// More packets are stalled than can be counted.
    Saturated,
}

/// One step's outcome: the next mode, the packets then stalled, the action.
pub struct Step {
    pub mode: Mode,
    pub stalled: nat,
    pub action: Action,
}

/// The mode to rest in when no packet is being processed.
pub open spec fn resting(stalled: nat) -> Mode {
    if stalled > 0 {
        Mode::AwaitingReplay
    } else {
        Mode::Idle
    }
}

/// The transition relation. `None` is a protocol violation.
pub open spec fn next(mode: Mode, stalled: nat, event: Event) -> Option<Step> {
    match (mode, event) {
        (Mode::Idle, Event::Packet) | (Mode::AwaitingReplay, Event::Packet) => Some(
            Step { mode: Mode::Processing, stalled, action: Action::Run },
        ),
        (Mode::Draining, Event::Packet) => Some(
            Step { mode: Mode::Draining, stalled, action: Action::Hold },
        ),
        (Mode::Processing, Event::Done) => Some(
            Step { mode: resting(stalled), stalled, action: Action::Forward },
        ),
        (Mode::Processing, Event::Miss) => Some(
            Step { mode: Mode::AwaitingReplay, stalled: stalled + 1, action: Action::RequestReplay },
        ),
        (Mode::AwaitingReplay, Event::ReplayFilled) => if stalled > 0 {
            Some(
                Step {
                    mode: Mode::Processing,
                    stalled: (stalled - 1) as nat,
                    action: Action::Resume,
                },
            )
        } else {
            None
        },
        (Mode::Idle, Event::Drain) | (Mode::AwaitingReplay, Event::Drain) => Some(
            Step { mode: Mode::Draining, stalled, action: Action::Handoff },
        ),
        (Mode::Draining, Event::Drained) => Some(
            Step { mode: resting(stalled), stalled, action: Action::Reopen },
        ),
        _ => None,
    }
}

/// The executor's own state: its mode and how many packets are stalled.
#[derive(Clone, Copy, Debug, PartialEq, Eq, Structural)]
pub struct Domain {
    pub mode: Mode,
    pub stalled: usize,
}

impl Domain {
    /// A domain waits for a replay exactly while it is not busy, not being
    /// drained, and has a stalled packet.
    pub open spec fn wf(&self) -> bool {
        &&& self.mode == Mode::Idle ==> self.stalled == 0
        &&& self.mode == Mode::AwaitingReplay ==> self.stalled > 0
    }

    /// An idle domain with nothing stalled.
    pub fn new() -> (d: Domain)
        ensures
            d.wf(),
            d.mode == Mode::Idle,
            d.stalled == 0,
    {
        Domain { mode: Mode::Idle, stalled: 0 }
    }

    /// Takes one event. On a legal event the domain moves as `next` says
    /// and the action is returned; on any other, or when the count of
    /// stalled packets would overflow, the domain is left as it was.
    pub fn step(&mut self, event: Event) -> (r: Result<Action, DomainError>)
        requires
            old(self).wf(),
        ensures
            final(self).wf(),
            match next(old(self).mode, old(self).stalled as nat, event) {
                Some(s) => if s.stalled <= usize::MAX {
                    r == Ok::<Action, DomainError>(s.action) && final(self).mode == s.mode
                        && final(self).stalled == s.stalled
                } else {
                    r == Err::<Action, DomainError>(DomainError::Saturated)
                        && *final(self) == *old(self)
                },
                None => r == Err::<Action, DomainError>(DomainError::ProtocolViolation)
                    && *final(self) == *old(self),
            },
    {
        let rest: Mode = if self.stalled > 0 {
            Mode::AwaitingReplay
        } else {
            Mode::Idle
        };
        match (self.mode, event) {
            (Mode::Idle, Event::Packet) | (Mode::AwaitingReplay, Event::Packet) => {
                self.mode = Mode::Processing;
                Ok(Action::Run)
            },
            (Mode::Draining, Event::Packet) => Ok(Action::Hold),
            (Mode::Processing, Event::Done) => {
                self.mode = rest;
                Ok(Action::Forward)
            },
            (Mode::Processing, Event::Miss) => {
                if self.stalled == usize::MAX {
                    Err(DomainError::Saturated)
                } else {
                    self.stalled = self.stalled + 1;
                    self.mode = Mode::AwaitingReplay;
                    Ok(Action::RequestReplay)
                }
            },
            (Mode::AwaitingReplay, Event::ReplayFilled) => {
                self.stalled = self.stalled - 1;
                self.mode = Mode::Processing;
                Ok(Action::Resume)
            },
            (Mode::Idle, Event::Drain) | (Mode::AwaitingReplay, Event::Drain) => {
                self.mode = Mode::Draining;
                Ok(Action::Handoff)
            },
            (Mode::Draining, Event::Drained) => {
                self.mode = rest;
                Ok(Action::Reopen)
            },
            _ => Err(DomainError::ProtocolViolation),
        }
    }
}

/// What to do about a lookup of `key` at `node`.
#[derive(Clone, Copy, Debug, PartialEq, Eq, Structural)]
pub enum MissOutcome {
    /// The state can answer: there is no miss and nothing was recorded.
    Known,
    /// The state cannot answer; the tracker decided this.
    Replay(Trigger),
}

/// Decides what a lookup of `key` in `state` calls for. A key that the
/// state knows never starts a replay nor joins one; for an unknown key the
/// tracker sees to it that only the first miss asks upstream.
pub fn on_miss<T>(
    state: &State<T>,
    tracker: &mut ReplayTracker,
    node: usize,
    key: i64,
    waiter: u64,
) -> (out: MissOutcome)
    requires
        state.wf(),
        old(tracker).wf(),
    ensures
        final(tracker).wf(),
        final(tracker).same_elsewhere(old(tracker), node, key),
        final(tracker).replays_in_flight(node, key) <= 1,
        out == (if state.knows(key) {
            MissOutcome::Known
        } else if old(tracker).in_flight(node, key) {
            MissOutcome::Replay(Trigger::Join)
        } else if old(tracker).outstanding() < old(tracker).limit() {
            MissOutcome::Replay(Trigger::Issue)
        } else {
            MissOutcome::Replay(Trigger::Refuse)
        }),
        (out == MissOutcome::Known || out == MissOutcome::Replay(Trigger::Refuse))
            ==> final(tracker).unchanged(old(tracker)),
        (out == MissOutcome::Replay(Trigger::Join) || out == MissOutcome::Replay(Trigger::Issue))
            ==> final(tracker).in_flight(node, key) && final(tracker).waiters_of(node, key)
            == old(tracker).waiters_of(node, key).push(waiter),
{
    if state.is_known(key) {
        proof {
            crate::replay::at_most_one_replay(*tracker, node, key);
        }
        MissOutcome::Known
    } else {
        MissOutcome::Replay(tracker.request(node, key, waiter))
    }
}

/// Takes in the rows that a replay of `key` brought for `node`: fills the
/// state unless the key is held already, ends the replay, and returns the
/// packets to resume in the order in which they stalled (`None` where no
/// replay was in flight).
pub fn on_fill<T>(
    state: &mut State<T>,
    tracker: &mut ReplayTracker,
    node: usize,
    key: i64,
    rows: Vec<T>,
) -> (woken: Option<Vec<u64>>)
    requires
        old(state).wf(),
        old(tracker).wf(),
    ensures
        final(state).wf(),
        final(tracker).wf(),
        final(state).holds(key),
        final(state).same_elsewhere(old(state), key),
        old(state).holds(key) ==> final(state).contents() == old(state).contents()
            && final(state).rows_of(key) == old(state).rows_of(key),
        !old(state).holds(key) ==> final(state).rows_of(key) == rows@,
        final(tracker).same_elsewhere(old(tracker), node, key),
        !final(tracker).in_flight(node, key),
        match woken {
            Some(w) => old(tracker).in_flight(node, key)
                && w@ == old(tracker).waiters_of(node, key)
                && final(tracker).outstanding() == old(tracker).outstanding() - 1,
            None => !old(tracker).in_flight(node, key) && final(tracker).unchanged(old(tracker)),
        },
{
    state.fill(key, rows);
    tracker.complete(node, key)
}

/// What a reader that waits for a replay does next.
#[derive(Clone, Copy, Debug, PartialEq, Eq, Structural)]
pub enum ReadWait {
    /// The key is filled: answer from the state.
    Answer,
    /// Keep waiting, for this many milliseconds at most.
    Wait(u64),
    /// The bound has passed: tell the caller to try again later.
    TimedOut,
}

/// Decides whether a read that has waited `elapsed_ms` for its key goes
/// on waiting: never beyond `limit_ms`, and never once the key is filled.
pub fn read_wait(filled: bool, elapsed_ms: u64, limit_ms: u64) -> (w: ReadWait)
    ensures
        w == (if filled {
            ReadWait::Answer
        } else if elapsed_ms >= limit_ms {
            ReadWait::TimedOut
        } else {
            ReadWait::Wait((limit_ms - elapsed_ms) as u64)
        }),
{
    if filled {
        ReadWait::Answer
    } else if elapsed_ms >= limit_ms {
        ReadWait::TimedOut
    } else {
        ReadWait::Wait(limit_ms - elapsed_ms)
    }
}

} // verus!
