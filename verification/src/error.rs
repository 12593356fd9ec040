//! What can go wrong in a recording session, and how far each failure reaches.

use crate::bridge::BridgeOverflow;
use crate::screen::NoScreenMatched;
use vstd::prelude::*;
use vstd::std_specs::convert::FromSpecImpl;

verus! {

/// Why one click produced no action.
#[derive(Clone, Copy, Debug, PartialEq, Eq, Structural)]
pub enum CaptureFailed {
    /// The capture source gave no snapshot of the screen.
    Unavailable,
    /// The snapshot could not be decoded into pixels.
    Decode,
    /// The annotated frame could not be encoded.
    Encode,
}

/// The failures of the recording core.
#[derive(Clone, Copy, Debug, PartialEq, Eq, Structural)]
pub enum CoreError {
    /// The input hook could not be registered.
    ListenerUnavailable,
    /// The event queue was full when an event arrived.
    BridgeOverflow,
    /// One click produced no action.
    CaptureFailed(CaptureFailed),
    /// A click fell outside every known screen.
    NoScreenMatched,
}

/// How far a failure reaches.
#[derive(Clone, Copy, Debug, PartialEq, Eq, Structural)]
pub enum Reach {
    /// The session does not start.
    AbortsStart,
    /// The session goes on; one event or one action is lost.
    LosesOne,
    /// The session goes on and nothing is lost: a fallback stands in.
    Absorbed,
}

impl CoreError {
    /// How far each failure reaches. None ends the process, and only a
    /// listener that cannot be had keeps a session from starting.
    pub open spec fn spec_reach(&self) -> Reach {
        match self {
            CoreError::ListenerUnavailable => Reach::AbortsStart,
            CoreError::BridgeOverflow => Reach::LosesOne,
            CoreError::CaptureFailed(_) => Reach::LosesOne,
            CoreError::NoScreenMatched => Reach::Absorbed,
        }
    }

    #[verifier::when_used_as_spec(spec_reach)]
    pub fn reach(&self) -> (reach: Reach)
        ensures
            reach == self.spec_reach(),
    {
        match self {
            CoreError::ListenerUnavailable => Reach::AbortsStart,
            CoreError::BridgeOverflow => Reach::LosesOne,
            CoreError::CaptureFailed(_) => Reach::LosesOne,
            CoreError::NoScreenMatched => Reach::Absorbed,
        }
    }

    /// Whether the session may go on after this failure.
    pub fn is_recoverable(&self) -> (recoverable: bool)
        ensures
            recoverable == !(self is ListenerUnavailable),
            recoverable == (self.spec_reach() != Reach::AbortsStart),
    {
        match self {
            CoreError::ListenerUnavailable => false,
            _ => true,
        }
    }
}

impl From<CaptureFailed> for CoreError {
    fn from(failure: CaptureFailed) -> (error: CoreError) {
        CoreError::CaptureFailed(failure)
    }
}

impl FromSpecImpl<CaptureFailed> for CoreError {
    open spec fn obeys_from_spec() -> bool {
        true
    }

    open spec fn from_spec(failure: CaptureFailed) -> CoreError {
        CoreError::CaptureFailed(failure)
    }
}

impl From<BridgeOverflow> for CoreError {
    fn from(overflow: BridgeOverflow) -> (error: CoreError) {
        CoreError::BridgeOverflow
    }
}

impl FromSpecImpl<BridgeOverflow> for CoreError {
    open spec fn obeys_from_spec() -> bool {
        true
    }

    open spec fn from_spec(overflow: BridgeOverflow) -> CoreError {
        CoreError::BridgeOverflow
    }
}

impl From<NoScreenMatched> for CoreError {
    fn from(unmatched: NoScreenMatched) -> (error: CoreError) {
        CoreError::NoScreenMatched
    }
}

impl FromSpecImpl<NoScreenMatched> for CoreError {
    open spec fn obeys_from_spec() -> bool {
        true
    }

    open spec fn from_spec(unmatched: NoScreenMatched) -> CoreError {
        CoreError::NoScreenMatched
    }
}

} // verus!
