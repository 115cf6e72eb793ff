//! Facts about UTF-8 that connect the characters of a string with its bytes.

use vstd::prelude::*;
use vstd::utf8::*;

verus! {

/// Encoding a concatenation gives the concatenation of the encodings.
pub proof fn lemma_encode_concat(a: Seq<char>, b: Seq<char>)
    ensures
        encode_utf8(a + b) == encode_utf8(a) + encode_utf8(b),
    decreases a.len(),
{
    if a.len() == 0 {
        assert(a + b =~= b);
        assert(encode_utf8(a) + encode_utf8(b) =~= encode_utf8(b));
    } else {
        lemma_encode_concat(a.drop_first(), b);
        assert((a + b).drop_first() =~= a.drop_first() + b);
        assert(encode_utf8(a + b) =~= encode_utf8(a) + encode_utf8(b));
    }
}

/// Two character sequences with the same encoding are the same sequence.
pub proof fn lemma_encode_injective(a: Seq<char>, b: Seq<char>)
    requires
        encode_utf8(a) == encode_utf8(b),
    ensures
        a == b,
{
    encode_utf8_decode_utf8(a);
    encode_utf8_decode_utf8(b);
}

/// Where a valid encoding opens with a valid encoding, the end of that
/// opening part is a character boundary of the whole.
pub proof fn lemma_boundary_after_prefix(head: Seq<u8>, tail: Seq<u8>)
    requires
        valid_utf8(head),
        valid_utf8(head + tail),
    ensures
        is_char_boundary(head + tail, head.len() as int),
    decreases head.len(),
{
    if head.len() > 0 {
        let whole = head + tail;
        assert(length_of_first_scalar(whole) == length_of_first_scalar(head));
        assert(pop_first_scalar(whole) =~= pop_first_scalar(head) + tail);
        lemma_boundary_after_prefix(pop_first_scalar(head), tail);
    }
}

/// The characters of `text` open with `prefix` exactly when the bytes of
/// `text` open with the bytes of `prefix`; what follows the prefix then
/// encodes to what follows its bytes.
pub proof fn lemma_prefix_of_text(prefix: Seq<char>, text: Seq<char>)
    ensures
        prefix.is_prefix_of(text) <==> encode_utf8(prefix).is_prefix_of(encode_utf8(text)),
        prefix.is_prefix_of(text) ==> {
            &&& is_char_boundary(encode_utf8(text), encode_utf8(prefix).len() as int)
            &&& encode_utf8(text.skip(prefix.len() as int)) == encode_utf8(text).skip(
                encode_utf8(prefix).len() as int,
            )
        },
{
    let head = encode_utf8(prefix);
    let whole = encode_utf8(text);
    encode_utf8_valid_utf8(prefix);
    encode_utf8_valid_utf8(text);
    if prefix.is_prefix_of(text) {
        let rest = text.skip(prefix.len() as int);
        assert(text =~= prefix + rest);
        lemma_encode_concat(prefix, rest);
        assert(whole.skip(head.len() as int) =~= encode_utf8(rest));
        lemma_boundary_after_prefix(head, encode_utf8(rest));
    }
    if head.is_prefix_of(whole) {
        let tail = whole.skip(head.len() as int);
        assert(whole =~= head + tail);
        lemma_boundary_after_prefix(head, tail);
        valid_utf8_split(whole, head.len() as int);
        assert(whole.subrange(head.len() as int, whole.len() as int) =~= tail);
        let rest = decode_utf8(tail);
        decode_utf8_encode_utf8(tail);
        lemma_encode_concat(prefix, rest);
        lemma_encode_injective(prefix + rest, text);
        assert(prefix.is_prefix_of(prefix + rest));
    }
}

/// Behind an opening part made of ASCII characters, the text starts at the
/// byte whose offset is the number of those characters.
pub proof fn lemma_text_after_ascii(prefix: Seq<char>, rest: Seq<char>)
    requires
        is_ascii_chars(prefix),
    ensures
        encode_utf8(prefix).len() == prefix.len(),
        is_char_boundary(encode_utf8(prefix + rest), prefix.len() as int),
        decode_utf8(encode_utf8(prefix + rest).skip(prefix.len() as int)) == rest,
{
    let text = prefix + rest;
    is_ascii_chars_encode_utf8(prefix);
    lemma_prefix_of_text(prefix, text);
    assert(prefix.is_prefix_of(text)) by {
        assert(text.subrange(0, prefix.len() as int) =~= prefix);
    }
    assert(text.skip(prefix.len() as int) =~= rest);
    encode_utf8_decode_utf8(rest);
}

} // verus!
