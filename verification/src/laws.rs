//! What holds of encoding and decoding taken together.

use crate::byte_order::{be_bytes, be_value_of, lemma_be_value_of_bytes};
use crate::decoder::{first_outcome, frame_extent, interpret_payload, DecoderView};
use crate::error::ProtocolError;
use crate::frame::{fits_frame, frame_of, payload_of};
use crate::message::{
    parse_text, register_username_tag, server_info_tag, user_text_tag, MessageView,
};
use crate::encoding::lemma_encode_concat;
use vstd::prelude::*;
use vstd::utf8::*;

verus! {

/// A text does not open with a tag whose first character is not its own.
proof fn lemma_other_first_char(tag: Seq<char>, text: Seq<char>)
    requires
        tag.len() > 0,
        text.len() > 0,
        tag[0] != text[0],
    ensures
        !tag.is_prefix_of(text),
{
    if tag.is_prefix_of(text) {
        assert(text.subrange(0, tag.len() as int)[0] == text[0]);
    }
}

/// Reading the canonical text of a message gives the message back, whatever
/// its payload holds.
pub proof fn lemma_parse_of_text(message: MessageView)
    ensures
        parse_text(message.text()) == Ok::<MessageView, ProtocolError>(message),
{
    let text = message.text();
    let payload = message.payload();
    assert(text.subrange(0, message.tag().len() as int) =~= message.tag());
    assert(text.skip(message.tag().len() as int) =~= payload);
    match message {
        MessageView::UserText(_) => {},
        MessageView::RegisterUsername(_) => {
            lemma_other_first_char(user_text_tag(), text);
        },
        MessageView::ServerInfo(_) => {
            lemma_other_first_char(user_text_tag(), text);
            lemma_other_first_char(register_username_tag(), text);
        },
    }
}

/// Interpreting the payload of a message's frame gives the message back.
pub proof fn lemma_interpret_of_payload(message: MessageView)
    ensures
        interpret_payload(payload_of(message)) == Ok::<MessageView, ProtocolError>(message),
{
    encode_utf8_valid_utf8(message.text());
    encode_utf8_decode_utf8(message.text());
    lemma_parse_of_text(message);
}

/// A frame delimits itself: decoding from a stream that opens with the frame
/// of a message gives that message and uses up the frame and nothing else,
/// whatever follows the frame in the stream.
pub proof fn lemma_frame_delimits_itself(message: MessageView, rest: Seq<u8>)
    requires
        fits_frame(message),
    ensures
        first_outcome(frame_of(message) + rest) == Ok::<MessageView, ProtocolError>(message),
        frame_extent(frame_of(message) + rest) == frame_of(message).len(),
        (frame_of(message) + rest).skip(frame_extent(frame_of(message) + rest) as int) == rest,
{
    let payload = payload_of(message);
    let length = payload.len() as u32;
    let frame = frame_of(message);
    let stream = frame + rest;
    lemma_be_value_of_bytes(length);
    assert(be_value_of(stream) == be_value_of(be_bytes(length)));
    assert(frame.len() == 4 + payload.len());
    assert(stream.subrange(4, 4 + payload.len() as int) =~= payload);
    assert(stream.skip(frame.len() as int) =~= rest);
    lemma_interpret_of_payload(message);
}

/// Round trip: decoding from a stream that holds the frame of a message,
/// and nothing else, gives a message equal to it and leaves the stream
/// empty.
pub proof fn lemma_round_trip(message: MessageView)
    requires
        fits_frame(message),
    ensures
        first_outcome(frame_of(message)) == Ok::<MessageView, ProtocolError>(message),
        frame_of(message).skip(frame_extent(frame_of(message)) as int) == Seq::<u8>::empty(),
{
    lemma_frame_delimits_itself(message, Seq::empty());
    assert(frame_of(message) + Seq::<u8>::empty() =~= frame_of(message));
}

/// Two frames written one after the other decode, in one pass over the
/// stream, to the two messages in the order in which they were written.
pub proof fn lemma_two_frames_in_order(first: MessageView, second: MessageView)
    requires
        fits_frame(first),
        fits_frame(second),
    ensures
        ({
            let stream = frame_of(first) + frame_of(second);
            let after_first = stream.skip(frame_extent(stream) as int);
            let after_second = after_first.skip(frame_extent(after_first) as int);
            &&& first_outcome(stream) == Ok::<MessageView, ProtocolError>(first)
            &&& first_outcome(after_first) == Ok::<MessageView, ProtocolError>(second)
            &&& after_second == Seq::<u8>::empty()
        }),
{
    lemma_frame_delimits_itself(first, frame_of(second));
    lemma_round_trip(second);
}

/// A stream that ends before the declared length is reached is used up
/// whole, and what came after the length is taken for the payload: the
/// outcome is that of interpreting those bytes. It is an error unless they
/// are valid UTF-8 whose text opens with a known tag.
pub proof fn lemma_cut_short(stream: Seq<u8>)
    requires
        4 <= stream.len(),
        stream.len() - 4 < be_value_of(stream),
    ensures
        frame_extent(stream) == stream.len(),
        first_outcome(stream) == interpret_payload(stream.skip(4)),
        !valid_utf8(stream.skip(4)) ==> first_outcome(stream) == Err::<
            MessageView,
            ProtocolError,
        >(ProtocolError::Malformed),
        valid_utf8(stream.skip(4)) && parse_text(decode_utf8(stream.skip(4))) is Err
            ==> first_outcome(stream) == Err::<MessageView, ProtocolError>(
            ProtocolError::UnknownTag,
        ),
{
}

/// The outcome of a frame of which the peer sent only the first `held`
/// bytes before it closed the stream, where the cut lies before the end of
/// the tag: nothing at all is a closed connection, a part of the length is
/// malformed, and a part of the tag is no known tag. No message is made up.
pub proof fn lemma_cut_before_payload(message: MessageView, held: int)
    requires
        fits_frame(message),
        0 <= held < 4 + message.tag().len(),
    ensures
        first_outcome(frame_of(message).take(held)) == Err::<MessageView, ProtocolError>(
            if held == 0 {
                ProtocolError::ConnectionClosed
            } else if held < 4 {
                ProtocolError::Malformed
            } else {
                ProtocolError::UnknownTag
            },
        ),
{
    let tag = message.tag();
    let payload = payload_of(message);
    let frame = frame_of(message);
    let stream = frame.take(held);
    lemma_be_value_of_bytes(payload.len() as u32);
    assert(is_ascii_chars(tag));
    is_ascii_chars_encode_utf8(tag);
    lemma_encode_concat(tag, message.payload());
    assert(payload.len() >= tag.len());
    if held >= 4 {
        let kept = held - 4;
        let opening = tag.take(kept);
        assert(be_value_of(stream) == be_value_of(be_bytes(payload.len() as u32)));
        assert(is_ascii_chars(opening));
        is_ascii_chars_encode_utf8(opening);
        assert(tag =~= opening + tag.skip(kept));
        lemma_encode_concat(opening, tag.skip(kept));
        assert(stream.subrange(4, held) =~= encode_utf8(opening));
        encode_utf8_valid_utf8(opening);
        encode_utf8_decode_utf8(opening);
        if kept > 0 {
            assert(opening[0] == tag[0]);
            if tag[0] != 'U' {
                lemma_other_first_char(user_text_tag(), opening);
            }
            if tag[0] != 'R' {
                lemma_other_first_char(register_username_tag(), opening);
            }
            if tag[0] != 'S' {
                lemma_other_first_char(server_info_tag(), opening);
            }
        }
    }
}

/// The state and the outcome after the decoder has been fed with what a
/// run of reads returned, up to the first read that completes a frame.
pub open spec fn fed(state: DecoderView, reads: Seq<Seq<u8>>) -> (
    DecoderView,
    Option<Result<MessageView, ProtocolError>>,
)
    decreases reads.len(),
{
    if reads.len() == 0 {
        (state, None)
    } else if state.step(reads.first()).1 is Some {
        state.step(reads.first())
    } else {
        fed(state.step(reads.first()).0, reads.drop_first())
    }
}

/// Whether every read of the run returned at least one byte.
pub open spec fn all_bring_bytes(reads: Seq<Seq<u8>>) -> bool {
    forall|i: int| 0 <= i < reads.len() ==> (#[trigger] reads[i]).len() > 0
}

/// A run of reads that between them bring exactly what is missing of a
/// payload completes the frame with its last read, and the payload is the
/// bytes in the order in which they came.
pub proof fn lemma_payload_in_pieces(declared: nat, received: Seq<u8>, reads: Seq<Seq<u8>>)
    requires
        received.len() < declared,
        all_bring_bytes(reads),
        received.len() + reads.flatten().len() == declared,
    ensures
        fed(DecoderView::AwaitingPayload { declared, received }, reads) == (
            DecoderView::AwaitingLength,
            Some(interpret_payload(received + reads.flatten())),
        ),
    decreases reads.len(),
{
    let state = DecoderView::AwaitingPayload { declared, received };
    if reads.len() == 0 {
        assert(reads.flatten().len() == 0);
    } else {
        let data = reads.first();
        let later = reads.drop_first();
        assert(data.len() > 0);
        assert(reads.flatten() == data + later.flatten());
        if received.len() + data.len() >= declared {
            if later.len() > 0 {
                assert(later.first().len() > 0);
                assert(later.flatten() == later.first() + later.drop_first().flatten());
            }
            assert(later.flatten().len() == 0);
            assert(reads.flatten() =~= data);
        } else {
            assert forall|i: int| 0 <= i < later.len() implies (#[trigger] later[i]).len() > 0 by {
                assert(later[i] == reads[i + 1]);
            }
            lemma_payload_in_pieces(declared, received + data, later);
            assert((received + data) + later.flatten() =~= received + reads.flatten());
        }
    }
}

/// However the reads cut the payload into pieces, a decoder that is fed
/// with the length of a message's frame and then with the pieces of its
/// payload gives the message, with the read that brings the last piece, and
/// then awaits the next frame.
pub proof fn lemma_chunking_is_immaterial(message: MessageView, reads: Seq<Seq<u8>>)
    requires
        fits_frame(message),
        all_bring_bytes(reads),
        reads.flatten() == payload_of(message),
    ensures
        fed(
            DecoderView::AwaitingLength,
            seq![be_bytes(payload_of(message).len() as u32)] + reads,
        ) == (DecoderView::AwaitingLength, Some(Ok::<MessageView, ProtocolError>(message))),
{
    let payload = payload_of(message);
    let prefix = be_bytes(payload.len() as u32);
    let all = seq![prefix] + reads;
    lemma_be_value_of_bytes(payload.len() as u32);
    lemma_interpret_of_payload(message);
    assert(all.first() == prefix);
    assert(all.drop_first() =~= reads);
    assert(message.text().len() >= message.tag().len() > 0);
    assert(payload.len() > 0) by {
        assert(encode_utf8(message.text()) == encode_scalar(message.text()[0] as u32)
            + encode_utf8(message.text().drop_first()));
    }
    lemma_payload_in_pieces(payload.len(), Seq::empty(), reads);
    assert(Seq::<u8>::empty() + reads.flatten() =~= payload);
}

} // verus!
