//! Decoding of frames: the step-by-step decoder that is fed with what each
//! read of the transport returned, and the decoding of one frame out of a
//! stream of bytes held in memory.

use crate::byte_order::{be_value_of, convert_be_u8_array_to_u32};
use crate::error::ProtocolError;
use crate::message::{outcome_view, parse_message, parse_text, Message, MessageView};
use std::string::FromUtf8Error;
use vstd::prelude::*;
use vstd::slice::slice_subrange;
use vstd::utf8::*;

verus! {

/// The error of `String::from_utf8`; nothing is read out of it.
#[verifier::external_type_specification]
#[verifier::external_body]
pub struct ExFromUtf8Error(FromUtf8Error);

/// `String::from_utf8` of the standard library: it succeeds exactly on the
/// byte sequences that are valid UTF-8, and the string it then returns holds
/// the characters that those bytes encode.
pub assume_specification[ String::from_utf8 ](vec: Vec<u8>) -> (result: Result<
    String,
    FromUtf8Error,
>)
    ensures
        result is Ok <==> valid_utf8(vec@),
        result matches Ok(text) ==> text@ == decode_utf8(vec@),
;

/// The message that the payload of a frame denotes: the payload must be
/// valid UTF-8, and its text must open with a known tag.
pub open spec fn interpret_payload(payload: Seq<u8>) -> Result<MessageView, ProtocolError> {
    if valid_utf8(payload) {
        parse_text(decode_utf8(payload))
    } else {
        Err(ProtocolError::Malformed)
    }
}

/// Reads a message out of the payload of a frame.
///
/// A payload that is not valid UTF-8 is refused with
/// [`ProtocolError::Malformed`], one whose text opens with no known tag with
/// [`ProtocolError::UnknownTag`].
pub fn decode_payload(payload: Vec<u8>) -> (result: Result<Message, ProtocolError>)
    ensures
        outcome_view(result) == interpret_payload(payload@),
{
    match String::from_utf8(payload) {
        Ok(text) => parse_message(text),
        Err(_) => Err(ProtocolError::Malformed),
    }
}

/// Where a decoder stands within a frame.
pub enum DecoderView {
    /// The next read is to bring the four bytes of the length.
    AwaitingLength,
    /// The length has been read; `received` holds the part of the payload
    /// that has arrived, which is shorter than `declared`.
    AwaitingPayload { declared: nat, received: Seq<u8> },
}

impl DecoderView {
    /// The greatest number of bytes that the next read may bring.
    pub open spec fn wanted(self) -> nat {
        match self {
            DecoderView::AwaitingLength => 4,
            DecoderView::AwaitingPayload { declared, received } => (declared
                - received.len()) as nat,
        }
    }

    /// Whether the state is one that a decoder can be in: while the payload
    /// is awaited, less of it has arrived than was declared, and the
    /// declared length is one that four bytes can hold.
    pub open spec fn well_formed(self) -> bool {
        match self {
            DecoderView::AwaitingLength => true,
            DecoderView::AwaitingPayload { declared, received } => received.len() < declared
                <= u32::MAX,
        }
    }

    /// The state after a read has returned `data`, and the outcome of the
    /// frame where the read completes it.
    ///
    /// A read that returns nothing means that the peer has closed the
    /// stream. Where the length was awaited, the connection is closed; a
    /// length of fewer than four bytes is malformed. Where the payload was
    /// awaited, the bytes that had arrived are taken for the whole payload.
    pub open spec fn step(self, data: Seq<u8>) -> (DecoderView, Option<
        Result<MessageView, ProtocolError>,
    >) {
        match self {
            DecoderView::AwaitingLength => if data.len() == 0 {
                (DecoderView::AwaitingLength, Some(Err(ProtocolError::ConnectionClosed)))
            } else if data.len() < 4 {
                (DecoderView::AwaitingLength, Some(Err(ProtocolError::Malformed)))
            } else if be_value_of(data) == 0 {
                (DecoderView::AwaitingLength, Some(interpret_payload(Seq::empty())))
            } else {
                (
                    DecoderView::AwaitingPayload {
                        declared: be_value_of(data) as nat,
                        received: Seq::empty(),
                    },
                    None,
                )
            },
            DecoderView::AwaitingPayload { declared, received } => if data.len() == 0 {
                (DecoderView::AwaitingLength, Some(interpret_payload(received)))
            } else if received.len() + data.len() >= declared {
                (DecoderView::AwaitingLength, Some(interpret_payload(received + data)))
            } else {
                (DecoderView::AwaitingPayload { declared, received: received + data }, None)
            },
        }
    }
}

/// The mathematical value of what a step of the decoder returns.
pub open spec fn step_view(outcome: Option<Result<Message, ProtocolError>>) -> Option<
    Result<MessageView, ProtocolError>,
> {
    match outcome {
        Some(result) => Some(outcome_view(result)),
        None => None,
    }
}

/// A decoder of one frame at a time, fed with what each read of the
/// transport returned.
///
/// The caller asks [`FrameDecoder::wanted`] how many bytes the next read may
/// bring at most, reads, and hands the bytes to [`FrameDecoder::feed`],
/// until `feed` returns the outcome of the frame. The decoder then awaits
/// the next frame.
pub struct FrameDecoder {
    declared: Option<u32>,
    received: Vec<u8>,
}

impl View for FrameDecoder {
    type V = DecoderView;

    closed spec fn view(&self) -> DecoderView {
        match self.declared {
            None => DecoderView::AwaitingLength,
            Some(declared) => DecoderView::AwaitingPayload {
                declared: declared as nat,
                received: self.received@,
            },
        }
    }
}

impl FrameDecoder {
    #[verifier::type_invariant]
    spec fn consistent(self) -> bool {
        match self.declared {
            None => self.received@.len() == 0,
            Some(declared) => self.received@.len() < declared,
        }
    }

    /// A decoder that awaits the length of a frame.
    pub fn new() -> (decoder: FrameDecoder)
        ensures
            decoder@ == DecoderView::AwaitingLength,
    {
        FrameDecoder { declared: None, received: Vec::new() }
    }

    /// The greatest number of bytes that the next read may bring: four
    /// while the length is awaited, then what is missing of the payload.
    pub fn wanted(&self) -> (count: usize)
        ensures
            count == self@.wanted(),
            self@.well_formed(),
            0 < count <= u32::MAX,
    {
        proof {
            use_type_invariant(self);
        }
        match self.declared {
            None => 4,
            Some(declared) => declared as usize - self.received.len(),
        }
    }

    /// Takes what a read returned and says whether the frame is complete.
    ///
    /// `data` is empty where the read returned no byte, which means that the
    /// peer has closed the stream. The result is `None` while more of the
    /// payload is awaited, and the outcome of the frame once it is complete
    /// or cut short.
    pub fn feed(&mut self, data: &[u8]) -> (outcome: Option<Result<Message, ProtocolError>>)
        requires
            data@.len() <= old(self)@.wanted(),
        ensures
            final(self)@ == old(self)@.step(data@).0,
            step_view(outcome) == old(self)@.step(data@).1,
            final(self)@.well_formed(),
    {
        proof {
            use_type_invariant(&*self);
            if self.declared is None {
                assert(self.received@ =~= Seq::empty());
            }
        }
        match self.declared {
            None => {
                if data.len() == 0 {
                    Some(Err(ProtocolError::ConnectionClosed))
                } else if data.len() < 4 {
                    Some(Err(ProtocolError::Malformed))
                } else {
                    let prefix: [u8; 4] = [data[0], data[1], data[2], data[3]];
                    let declared = convert_be_u8_array_to_u32(&prefix);
                    if declared == 0 {
                        Some(decode_payload(Vec::new()))
                    } else {
                        self.declared = Some(declared);
                        None
                    }
                }
            },
            Some(declared) => {
                let mut payload: Vec<u8> = Vec::new();
                std::mem::swap(&mut payload, &mut self.received);
                if data.len() == 0 {
                    self.declared = None;
                    Some(decode_payload(payload))
                } else {
                    payload.extend_from_slice(data);
                    assert(payload@ =~= old(self).received@ + data@);
                    if payload.len() >= declared as usize {
                        self.declared = None;
                        Some(decode_payload(payload))
                    } else {
                        self.received = payload;
                        None
                    }
                }
            },
        }
    }
}

/// The greatest number of bytes that [`get_message`] takes out of the stream
/// at a time.
pub const READ_CHUNK: usize = 512;

/// The number of bytes at the head of `stream` that the decoding of one
/// frame uses up: the length and as much of the declared payload as the
/// stream holds, or all of a stream that is too short to hold a length.
pub open spec fn frame_extent(stream: Seq<u8>) -> nat {
    if stream.len() < 4 {
        stream.len()
    } else if be_value_of(stream) <= stream.len() - 4 {
        (4 + be_value_of(stream)) as nat
    } else {
        stream.len()
    }
}

/// The outcome of decoding one frame from the head of `stream`, where the
/// end of `stream` is the point at which the peer closed it.
pub open spec fn first_outcome(stream: Seq<u8>) -> Result<MessageView, ProtocolError> {
    if stream.len() == 0 {
        Err(ProtocolError::ConnectionClosed)
    } else if stream.len() < 4 {
        Err(ProtocolError::Malformed)
    } else {
        interpret_payload(stream.subrange(4, frame_extent(stream) as int))
    }
}

/// Decodes one frame from the head of `stream` and removes the bytes used.
///
/// `stream` holds the bytes that the peer sent before it closed the stream.
/// An empty stream gives [`ProtocolError::ConnectionClosed`], one shorter
/// than a length [`ProtocolError::Malformed`]. Where the stream ends before
/// the declared length is reached, the bytes that are there are taken for
/// the payload.
pub fn get_message(stream: &mut Vec<u8>) -> (result: Result<Message, ProtocolError>)
    ensures
        outcome_view(result) == first_outcome(old(stream)@),
        final(stream)@ == old(stream)@.skip(frame_extent(old(stream)@) as int),
{
    let mut decoder = FrameDecoder::new();
    let mut position: usize = 0;
    let total = stream.len();
    loop
        invariant
            stream@ == old(stream)@,
            total == stream@.len(),
            position <= total,
            position == 0 ==> decoder@ == DecoderView::AwaitingLength,
            position != 0 ==> {
                &&& 4 <= position
                &&& position - 4 < be_value_of(stream@)
                &&& decoder@ == DecoderView::AwaitingPayload {
                    declared: be_value_of(stream@) as nat,
                    received: stream@.subrange(4, position as int),
                }
            },
        decreases total - position,
    {
        let wanted = decoder.wanted();
        let available = total - position;
        let mut count = if wanted < READ_CHUNK {
            wanted
        } else {
            READ_CHUNK
        };
        if available < count {
            count = available;
        }
        let data = slice_subrange(stream.as_slice(), position, position + count);
        proof {
            if position == 0 && count == 4 {
                assert(be_value_of(data@) == be_value_of(stream@));
                assert(stream@.subrange(4, 4) =~= Seq::<u8>::empty());
            }
            if position != 0 {
                assert(stream@.subrange(4, position as int) + data@ =~= stream@.subrange(
                    4,
                    position + count,
                ));
            }
        }
        position += count;
        match decoder.feed(data) {
            Some(outcome) => {
                let rest = stream.split_off(position);
                *stream = rest;
                return outcome;
            },
            None => {},
        }
    }
}

} // verus!
