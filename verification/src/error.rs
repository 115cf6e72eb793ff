//! The ways in which the protocol and the session can fail.

use vstd::prelude::*;

verus! {

/// What went wrong while sending, receiving or connecting.
#[derive(Debug, Clone, Copy, PartialEq, Eq, Structural)]
pub enum ProtocolError {
    /// The address could not be reached or the server refused.
    ConnectFailed,
    /// A send was attempted while no connection was active.
    NotConnected,
    /// The peer ended the stream.
    ConnectionClosed,
    /// A frame failed its length or UTF-8 validation.
    Malformed,
    /// The text of a frame opened with none of the known tags.
    UnknownTag,
    /// A read timed out or would have blocked: no message has arrived yet.
    TimedOut,
    /// Any other failure of the transport.
    IoFailure,
}

} // verus!
