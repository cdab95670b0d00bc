//! What can go wrong in a domain, and what is done about each.

use vstd::prelude::*;

verus! {

/// The kinds of failure.
#[derive(Clone, Copy, Debug, PartialEq, Eq, Structural)]
pub enum Failure {
    /// A lookup in a partial state found the key unknown.
    TransientMiss,
    /// The coordinator cannot reach a replica.
    ConnectionFailure,
    /// A control packet is malformed or out of order.
    ProtocolViolation,
    /// A write to durable state failed.
    DurabilityFailure,
    /// A read waited for a replay longer than allowed.
    Timeout,
}

/// What is done about a failure.
#[derive(Clone, Copy, Debug, PartialEq, Eq, Structural)]
pub enum Recovery {
    /// Fill the key by a replay; nobody outside sees the miss.
    Replay,
    /// Hold the queued packets and connect again after a pause.
    Reconnect,
    /// Tell the caller to try again; no stale data is returned.
    RetryLater,
    /// Stop the domain and report to the control plane.
    Escalate,
}

/// The recovery that each kind of failure calls for.
pub open spec fn recovery_of(f: Failure) -> Recovery {
    match f {
        Failure::TransientMiss => Recovery::Replay,
        Failure::ConnectionFailure => Recovery::Reconnect,
        Failure::Timeout => Recovery::RetryLater,
        Failure::ProtocolViolation => Recovery::Escalate,
        Failure::DurabilityFailure => Recovery::Escalate,
    }
}

/// The recovery that `f` calls for.
pub fn recover(f: Failure) -> (r: Recovery)
    ensures
        r == recovery_of(f),
{
    match f {
        Failure::TransientMiss => Recovery::Replay,
        Failure::ConnectionFailure => Recovery::Reconnect,
        Failure::Timeout => Recovery::RetryLater,
        Failure::ProtocolViolation => Recovery::Escalate,
        Failure::DurabilityFailure => Recovery::Escalate,
    }
}

/// Whether `f` ends the domain: it does where it cannot be mended locally.
pub fn is_fatal(f: Failure) -> (fatal: bool)
    ensures
        fatal == (recovery_of(f) == Recovery::Escalate),
        fatal == (f == Failure::ProtocolViolation || f == Failure::DurabilityFailure),
{
    match f {
        Failure::ProtocolViolation => true,
        Failure::DurabilityFailure => true,
        _ => false,
    }
}

} // verus!
