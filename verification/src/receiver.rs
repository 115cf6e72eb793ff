//! The decisions of the receive loop: how a failed read is classified, and
//! what the loop does with the outcome of each decoding.

use crate::error::ProtocolError;
use crate::message::{Message, MessageView};
use vstd::prelude::*;

verus! {

/// Why a read of the transport failed.
#[derive(Debug, Clone, Copy, PartialEq, Eq, Structural)]
pub enum ReadFault {
    /// The connection was aborted.
    Aborted,
    /// The read timed out.
    TimedOut,
    /// The read would have blocked.
    WouldBlock,
    /// Any other failure.
    Other,
}

/// The error that a failed read stands for: an aborted connection is a
/// closed one, and a read that timed out or would have blocked only means
/// that no message has arrived yet.
pub open spec fn fault_meaning(fault: ReadFault) -> ProtocolError {
    match fault {
        ReadFault::Aborted => ProtocolError::ConnectionClosed,
        ReadFault::TimedOut => ProtocolError::TimedOut,
        ReadFault::WouldBlock => ProtocolError::TimedOut,
        ReadFault::Other => ProtocolError::IoFailure,
    }
}

/// Classifies a failed read.
pub fn classify_fault(fault: ReadFault) -> (error: ProtocolError)
    ensures
        error == fault_meaning(fault),
{
    match fault {
        ReadFault::Aborted => ProtocolError::ConnectionClosed,
        ReadFault::TimedOut | ReadFault::WouldBlock => ProtocolError::TimedOut,
        ReadFault::Other => ProtocolError::IoFailure,
    }
}

/// What the receive loop does after one attempt to decode a frame.
#[derive(Debug, PartialEq, Eq)]
pub enum ReceiveAction {
    /// Show this text to the user, then go on.
    Render(String),
    /// Nothing has arrived: look at the stop flag and try again.
    Retry,
    /// Warn the user of this error, then go on.
    Warn(ProtocolError),
    /// Tell the user that the server has closed the connection, and end.
    Finish,
}

/// The mathematical value of a [`ReceiveAction`].
pub enum ReceiveActionView {
    Render(Seq<char>),
    Retry,
    Warn(ProtocolError),
    Finish,
}

impl View for ReceiveAction {
    type V = ReceiveActionView;

    open spec fn view(&self) -> ReceiveActionView {
        match self {
            ReceiveAction::Render(text) => ReceiveActionView::Render(text@),
            ReceiveAction::Retry => ReceiveActionView::Retry,
            ReceiveAction::Warn(error) => ReceiveActionView::Warn(*error),
            ReceiveAction::Finish => ReceiveActionView::Finish,
        }
    }
}

/// What the outcome of a decoding asks of the receive loop: a message is
/// shown as its canonical text; a closed connection ends the loop; a
/// timeout is passed over in silence; any other error is worth a warning
/// and does not end the loop.
pub open spec fn reaction(outcome: Result<MessageView, ProtocolError>) -> ReceiveActionView {
    match outcome {
        Ok(message) => ReceiveActionView::Render(message.text()),
        Err(ProtocolError::ConnectionClosed) => ReceiveActionView::Finish,
        Err(ProtocolError::TimedOut) => ReceiveActionView::Retry,
        Err(error) => ReceiveActionView::Warn(error),
    }
}

/// Decides what the receive loop does with the outcome of a decoding.
pub fn on_received(outcome: Result<Message, ProtocolError>) -> (action: ReceiveAction)
    ensures
        action@ == reaction(crate::message::outcome_view(outcome)),
        action@ is Finish <==> outcome == Err::<Message, ProtocolError>(
            ProtocolError::ConnectionClosed,
        ),
{
    match outcome {
        Ok(message) => ReceiveAction::Render(message.to_string()),
        Err(ProtocolError::ConnectionClosed) => ReceiveAction::Finish,
        Err(ProtocolError::TimedOut) => ReceiveAction::Retry,
        Err(error) => ReceiveAction::Warn(error),
    }
}

} // verus!
