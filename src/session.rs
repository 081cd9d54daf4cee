//! The life of one connection: `Connecting`, `Active`, `Closing`, `Closed`.
//!
//! The transport runs the loop; this module decides, for each event, the next
//! phase and what the transport must do.
use vstd::prelude::*;

verus! {

#[derive(Debug, Clone, Copy, PartialEq, Eq, Structural)]
pub enum SessionPhase {
    Connecting,
    Active,
    Closing,
    Closed,
}

/// What happened to the connection.
#[derive(Debug, Clone, Copy, PartialEq, Eq, Structural)]
pub enum SessionEvent {
    /// The session has been given its identifier and registered.
    Registered,
    /// A frame arrived (well-formed or not).
    Frame,
    /// The peer closed the connection.
    PeerClosed,
    /// Reading or writing failed.
    TransportError,
    /// The server is shutting down.
    Shutdown,
    /// The session has left its rooms and been unregistered.
    CleanedUp,
}

/// What the transport does next.
#[derive(Debug, Clone, Copy, PartialEq, Eq, Structural)]
pub enum SessionAction {
    /// Read the next frame.
    ReadNext,
    /// Route the frame just read, write the deliveries, then read the next one.
    RouteFrame,
    /// Leave every room and unregister, then report `CleanedUp`.
    CleanUp,
    /// Flush and close the outbound sink; the session is over.
    Close,
    /// Nothing more is done.
    Stop,
}

/// The order of the phases; no phase is entered twice.
pub open spec fn rank(p: SessionPhase) -> nat {
    match p {
        SessionPhase::Connecting => 0,
        SessionPhase::Active => 1,
        SessionPhase::Closing => 2,
        SessionPhase::Closed => 3,
    }
}

pub open spec fn is_terminal(e: SessionEvent) -> bool {
    e == SessionEvent::PeerClosed || e == SessionEvent::TransportError || e == SessionEvent::Shutdown
}

/// The next phase and action after `e` in phase `p`.
pub open spec fn step_spec(p: SessionPhase, e: SessionEvent) -> (SessionPhase, SessionAction) {
    match p {
        SessionPhase::Connecting => if e == SessionEvent::Registered {
            (SessionPhase::Active, SessionAction::ReadNext)
        } else if is_terminal(e) {
            (SessionPhase::Closing, SessionAction::CleanUp)
        } else {
            (SessionPhase::Connecting, SessionAction::Stop)
        },
        SessionPhase::Active => if e == SessionEvent::Frame {
            (SessionPhase::Active, SessionAction::RouteFrame)
        } else if is_terminal(e) {
            (SessionPhase::Closing, SessionAction::CleanUp)
        } else {
            (SessionPhase::Active, SessionAction::ReadNext)
        },
        SessionPhase::Closing => if e == SessionEvent::CleanedUp {
            (SessionPhase::Closed, SessionAction::Close)
        } else {
            (SessionPhase::Closing, SessionAction::CleanUp)
        },
        SessionPhase::Closed => (SessionPhase::Closed, SessionAction::Stop),
    }
}

/// Decides the next phase and action of a session.
pub fn step(p: SessionPhase, e: SessionEvent) -> (r: (SessionPhase, SessionAction))
    ensures
        r == step_spec(p, e),
        rank(r.0) >= rank(p),
        e == SessionEvent::Frame && p == SessionPhase::Active ==> r.0 == SessionPhase::Active,
{
    match p {
        SessionPhase::Connecting => {
            if e == SessionEvent::Registered {
                (SessionPhase::Active, SessionAction::ReadNext)
            } else if e == SessionEvent::PeerClosed || e == SessionEvent::TransportError || e == SessionEvent::Shutdown {
                (SessionPhase::Closing, SessionAction::CleanUp)
            } else {
                (SessionPhase::Connecting, SessionAction::Stop)
            }
        },
        SessionPhase::Active => {
            if e == SessionEvent::Frame {
                (SessionPhase::Active, SessionAction::RouteFrame)
            } else if e == SessionEvent::PeerClosed || e == SessionEvent::TransportError || e == SessionEvent::Shutdown {
                (SessionPhase::Closing, SessionAction::CleanUp)
            } else {
                (SessionPhase::Active, SessionAction::ReadNext)
            }
        },
        SessionPhase::Closing => {
            if e == SessionEvent::CleanedUp {
                (SessionPhase::Closed, SessionAction::Close)
            } else {
                (SessionPhase::Closing, SessionAction::CleanUp)
            }
        },
        SessionPhase::Closed => (SessionPhase::Closed, SessionAction::Stop),
    }
}

} // verus!
