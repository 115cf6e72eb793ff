//! The frame: a four-byte big-endian length followed by that many bytes of
//! UTF-8 text, and the functions that write frames to a stream of bytes.

use crate::byte_order::{be_bytes, convert_u32_to_be_u8_array};
use crate::error::ProtocolError;
use crate::message::{Message, MessageView};
use vstd::prelude::*;
use vstd::string::*;
use vstd::utf8::*;

verus! {

/// The bytes that a frame carries after its length: the UTF-8 encoding of
/// the message's canonical text.
pub open spec fn payload_of(message: MessageView) -> Seq<u8> {
    encode_utf8(message.text())
}

/// Whether the length of the message's payload can be written in the four
/// bytes that a frame has for it.
pub open spec fn fits_frame(message: MessageView) -> bool {
    payload_of(message).len() <= u32::MAX
}

/// The frame of a message: the length of its payload as four big-endian
/// bytes, then the payload.
pub open spec fn frame_of(message: MessageView) -> Seq<u8>
    recommends
        fits_frame(message),
{
    be_bytes(payload_of(message).len() as u32) + payload_of(message)
}

/// How writing a message relates the bytes of the stream before the write
/// to those after it and to the result: the frame is added at the end, or,
/// where the payload is too long for the length field, the write is refused
/// as malformed and adds nothing.
pub open spec fn written(
    before: Seq<u8>,
    message: MessageView,
    after: Seq<u8>,
    result: Result<(), ProtocolError>,
) -> bool {
    if fits_frame(message) {
        result is Ok && after == before + frame_of(message)
    } else {
        result == Err::<(), ProtocolError>(ProtocolError::Malformed) && after == before
    }
}

/// Writes the frame of `message` at the end of `stream`.
///
/// A message whose payload is too long for the length field is refused with
/// [`ProtocolError::Malformed`], and nothing is written.
pub fn send_message(stream: &mut Vec<u8>, message: &Message) -> (result: Result<(), ProtocolError>)
    ensures
        written(old(stream)@, message@, final(stream)@, result),
{
    let message_string = message.to_string();
    let message_bytes = message_string.as_str().as_bytes();
    if message_bytes.len() > u32::MAX as usize {
        return Err(ProtocolError::Malformed);
    }
    let message_length = convert_u32_to_be_u8_array(message_bytes.len() as u32);
    stream.extend_from_slice(message_length.as_slice());
    stream.extend_from_slice(message_bytes);
    assert(stream@ =~= old(stream)@ + frame_of(message@));
    Ok(())
}

/// Sends a chat line over the stream of the active connection, if there is
/// one.
///
/// Without a connection the send fails with [`ProtocolError::NotConnected`]
/// and changes nothing. With one, the frame of the chat line is written at
/// the end of the stream as [`send_message`] writes it.
pub fn send_text(text: String, stream: &mut Option<Vec<u8>>) -> (result: Result<
    (),
    ProtocolError,
>)
    ensures
        *old(stream) is None ==> *final(stream) is None && result == Err::<(), ProtocolError>(
            ProtocolError::NotConnected,
        ),
        *old(stream) matches Some(before) ==> (*final(stream) matches Some(after) && written(
            before@,
            MessageView::UserText(text@),
            after@,
            result,
        )),
{
    let message = Message::new_user_text(text);
    match stream {
        Some(v) => send_message(v, &message),
        None => Err(ProtocolError::NotConnected),
    }
}

/// Sends a request to register a display name over the stream of the active
/// connection, if there is one.
///
/// Without a connection the send fails with [`ProtocolError::NotConnected`]
/// and changes nothing. With one, the frame of the request is written at
/// the end of the stream as [`send_message`] writes it.
pub fn send_register_username(text: String, stream: &mut Option<Vec<u8>>) -> (result: Result<
    (),
    ProtocolError,
>)
    ensures
        *old(stream) is None ==> *final(stream) is None && result == Err::<(), ProtocolError>(
            ProtocolError::NotConnected,
        ),
        *old(stream) matches Some(before) ==> (*final(stream) matches Some(after) && written(
            before@,
            MessageView::RegisterUsername(text@),
            after@,
            result,
        )),
{
    let message = Message::new_register_username(text);
    match stream {
        Some(v) => send_message(v, &message),
        None => Err(ProtocolError::NotConnected),
    }
}

} // verus!
