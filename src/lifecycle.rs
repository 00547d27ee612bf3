//! The phases of a connection, from accept to close. Phases only move
//! forward: once a connection starts to disconnect it never becomes active
//! again.
use vstd::prelude::*;

verus! {

#[derive(Clone, Copy, Debug, PartialEq, Eq, Structural)]
pub enum Phase {
    /// Accepted; nothing exchanged yet.
    Connecting,
    /// The handshake is running.
    Authenticating,
    /// Authenticated; waiting for `Hello`.
    Registering,
    /// Registered under its unique name; messages are routed.
    Active,
    /// Going away: queue drained, names released, waiters failed.
    Disconnecting,
    /// Gone.
    Closed,
}

#[derive(Clone, Copy, Debug, PartialEq, Eq, Structural)]
pub enum ConnEvent {
    /// The first bytes came in.
    BytesArrived,
    AuthSucceeded,
    AuthFailed,
    /// `Hello` was answered.
    Registered,
    /// End of stream or a transport error.
    Eof,
    ProtocolError,
    /// The bus is shutting down.
    Shutdown,
    /// Everything the connection held has been released.
    Drained,
}

pub open spec fn rank(p: Phase) -> nat {
    match p {
        Phase::Connecting => 0,
        Phase::Authenticating => 1,
        Phase::Registering => 2,
        Phase::Active => 3,
        Phase::Disconnecting => 4,
        Phase::Closed => 5,
    }
}

pub open spec fn is_ending(e: ConnEvent) -> bool {
    e == ConnEvent::AuthFailed || e == ConnEvent::Eof || e == ConnEvent::ProtocolError || e == ConnEvent::Shutdown
}

/// The phase after an event; an event that does not apply changes nothing.
pub open spec fn next_phase(p: Phase, e: ConnEvent) -> Phase {
    if rank(p) < 4 && is_ending(e) {
        Phase::Disconnecting
    } else {
        match (p, e) {
            (Phase::Connecting, ConnEvent::BytesArrived) => Phase::Authenticating,
            (Phase::Authenticating, ConnEvent::AuthSucceeded) => Phase::Registering,
            (Phase::Registering, ConnEvent::Registered) => Phase::Active,
            (Phase::Disconnecting, ConnEvent::Drained) => Phase::Closed,
            _ => p,
        }
    }
}

/// Moves a connection to its next phase.
pub fn advance(p: Phase, e: ConnEvent) -> (r: Phase)
    ensures
        r == next_phase(p, e),
{
    let ending = match e {
        ConnEvent::AuthFailed | ConnEvent::Eof | ConnEvent::ProtocolError | ConnEvent::Shutdown => true,
        _ => false,
    };
    let live = match p {
        Phase::Disconnecting | Phase::Closed => false,
        _ => true,
    };
    if live && ending {
        return Phase::Disconnecting;
    }
    match (p, e) {
        (Phase::Connecting, ConnEvent::BytesArrived) => Phase::Authenticating,
        (Phase::Authenticating, ConnEvent::AuthSucceeded) => Phase::Registering,
        (Phase::Registering, ConnEvent::Registered) => Phase::Active,
        (Phase::Disconnecting, ConnEvent::Drained) => Phase::Closed,
        _ => p,
    }
}

/// Phases never move backwards, and a connection that has begun to
/// disconnect is never active again.
pub proof fn lemma_phases_only_advance(p: Phase, e: ConnEvent)
    ensures
        rank(next_phase(p, e)) >= rank(p),
        rank(p) >= 4 ==> next_phase(p, e) != Phase::Active,
{
}

} // verus!
