//! The error taxonomy, layered: codec-level, transport-level, admission and
//! split errors at the substrate, and the named facade wrappers that carry
//! the substrate cause so callers can match on either level.

use vstd::prelude::*;

verus! {

/// A value could not be decoded from a frame. Value-scoped: it never
/// terminates the channel the frame arrived on.
#[derive(Clone, Copy, Debug, PartialEq, Eq, Structural)]
pub enum DecodeError {
    /// The frame's length does not fit the fixed-width binary layout.
    BadLength,
    /// The frame is not a well-formed encoding (wrong delimiters, a
    /// non-digit where a digit is required, or an empty number).
    BadSyntax,
    /// The encoded number does not fit the value type.
    Overflow,
}

/// An I/O failure on a peer's transport; terminal for that peer connection.
#[derive(Clone, Copy, Debug, PartialEq, Eq, Structural)]
pub struct TransportError;

/// A violation of the ready/submit/flush write discipline: a programming
/// error of the caller, never a transport fault.
#[derive(Clone, Copy, Debug, PartialEq, Eq, Structural)]
pub enum ProtocolMisuseError {
    /// `submit` was called without a preceding ready signal.
    SubmitWithoutReady,
    /// A second value was submitted before the first was flushed.
    OverlappingSubmit,
}

/// Why a new connection was not admitted into a multi-channel.
#[derive(Clone, Copy, Debug, PartialEq, Eq, Structural)]
pub enum AcceptError {
    /// The registry already holds its configured maximum of live peers.
    CapacityExceeded,
    /// The admission filter declined the peer, or this half no longer
    /// accepts because the listening role moved away at `split`.
    Rejected,
}

/// A split was attempted on a transport that cannot be halved.
#[derive(Clone, Copy, Debug, PartialEq, Eq, Structural)]
pub enum SplitError {
    NotHalvable,
}

/// A failure on a single channel's write path.
#[derive(Clone, Copy, Debug, PartialEq, Eq, Structural)]
pub enum ChannelSinkError {
    Misuse(ProtocolMisuseError),
    Transport(TransportError),
}

/// A failure surfaced by a channel's read path as an item.
#[derive(Clone, Copy, Debug, PartialEq, Eq, Structural)]
pub enum ChannelStreamError {
    Decode(DecodeError),
}

/// Facade error of the typed send endpoint; wraps the substrate cause.
#[derive(Clone, Copy, Debug, PartialEq, Eq, Structural)]
pub struct SenderError {
    pub source: ChannelSinkError,
}

/// Facade error of the typed receive endpoint; wraps the substrate cause.
#[derive(Clone, Copy, Debug, PartialEq, Eq, Structural)]
pub struct ReceiverError {
    pub source: ChannelStreamError,
}

/// Facade error of the receive endpoint's admission surface.
#[derive(Clone, Copy, Debug, PartialEq, Eq, Structural)]
pub struct ReceiverAcceptingError {
    pub source: AcceptError,
}

impl SenderError {
    /// A short description for display at the program's edge.
    pub fn message(&self) -> String {
        match self.source {
            ChannelSinkError::Misuse(ProtocolMisuseError::SubmitWithoutReady) => {
                "submit without a preceding ready".to_string()
            },
            ChannelSinkError::Misuse(ProtocolMisuseError::OverlappingSubmit) => {
                "submit before the previous value was flushed".to_string()
            },
            ChannelSinkError::Transport(_) => "transport failure".to_string(),
        }
    }
}

impl ReceiverError {
    /// A short description for display at the program's edge.
    pub fn message(&self) -> String {
        match self.source {
            ChannelStreamError::Decode(DecodeError::BadLength) => {
                "frame has the wrong length for the codec".to_string()
            },
            ChannelStreamError::Decode(DecodeError::BadSyntax) => {
                "frame is not a well-formed encoding".to_string()
            },
            ChannelStreamError::Decode(DecodeError::Overflow) => {
                "encoded number does not fit the value type".to_string()
            },
        }
    }
}

} // verus!
