//! Conversion between unsigned 32-bit integers and their four-byte
//! big-endian representation, the form in which a frame carries its length.

use vstd::prelude::*;

verus! {

/// The integer that four bytes denote when the first is the most significant.
pub open spec fn be_value(b0: u8, b1: u8, b2: u8, b3: u8) -> int {
    b0 as int * 0x100_0000 + b1 as int * 0x1_0000 + b2 as int * 0x100 + b3 as int
}

/// The integer that the first four bytes of `bytes` denote in big-endian order.
pub open spec fn be_value_of(bytes: Seq<u8>) -> int
    recommends
        bytes.len() >= 4,
{
    be_value(bytes[0], bytes[1], bytes[2], bytes[3])
}

/// The four bytes of `value`, most significant first.
pub open spec fn be_bytes(value: u32) -> Seq<u8> {
    seq![
        (value as int / 0x100_0000) as u8,
        (value as int / 0x1_0000 % 0x100) as u8,
        (value as int / 0x100 % 0x100) as u8,
        (value as int % 0x100) as u8,
    ]
}

/// Reading four bytes as a big-endian integer and writing that integer back
/// gives the same four bytes, and the integer always fits 32 bits.
pub proof fn lemma_be_bytes_of_value(b0: u8, b1: u8, b2: u8, b3: u8)
    ensures
        0 <= be_value(b0, b1, b2, b3) <= u32::MAX,
        be_bytes(be_value(b0, b1, b2, b3) as u32) == seq![b0, b1, b2, b3],
{
    let v = be_value(b0, b1, b2, b3);
    assert({
        let w = b0 as u32 * 0x100_0000 + b1 as u32 * 0x1_0000 + b2 as u32 * 0x100 + b3 as u32;
        &&& w <= 0xffff_ffff
        &&& w / 0x100_0000 == b0
        &&& w / 0x1_0000 % 0x100 == b1
        &&& w / 0x100 % 0x100 == b2
        &&& w % 0x100 == b3
    }) by (bit_vector);
    assert(be_bytes(v as u32) =~= seq![b0, b1, b2, b3]);
}

/// Writing any unsigned 32-bit integer as four big-endian bytes and reading
/// them back gives the integer again.
pub proof fn lemma_be_value_of_bytes(value: u32)
    ensures
        be_bytes(value).len() == 4,
        be_value_of(be_bytes(value)) == value,
{
    assert(value == (value / 0x100_0000) * 0x100_0000 + (value / 0x1_0000 % 0x100) * 0x1_0000 + (value
        / 0x100 % 0x100) * 0x100 + value % 0x100) by (bit_vector);
    assert(value / 0x100_0000 < 0x100 && value / 0x1_0000 % 0x100 < 0x100 && value / 0x100 % 0x100
        < 0x100 && value % 0x100 < 0x100) by (bit_vector);
}

/// Reads a big-endian unsigned 32-bit integer out of four bytes.
pub fn convert_be_u8_array_to_u32(buffer: &[u8; 4]) -> (value: u32)
    ensures
        value == be_value(buffer[0], buffer[1], buffer[2], buffer[3]),
        be_bytes(value) == buffer@,
{
    let b0: u8 = buffer[0];
    let b1: u8 = buffer[1];
    let b2: u8 = buffer[2];
    let b3: u8 = buffer[3];
    let mut result: u32 = b3 as u32;
    assert(((b2 as u32) << 8) == (b2 as u32) * 0x100) by (bit_vector);
    assert(((b1 as u32) << 16) == (b1 as u32) * 0x1_0000) by (bit_vector);
    assert(((b0 as u32) << 24) == (b0 as u32) * 0x100_0000) by (bit_vector);
    result += (b2 as u32) << 8;
    result += (b1 as u32) << 16;
    result += (b0 as u32) << 24;
    proof {
        lemma_be_bytes_of_value(b0, b1, b2, b3);
        assert(buffer@ =~= seq![b0, b1, b2, b3]);
    }
    result
}

/// Writes an unsigned 32-bit integer as four bytes, most significant first.
pub fn convert_u32_to_be_u8_array(a: u32) -> (bytes: [u8; 4])
    ensures
        bytes@ == be_bytes(a),
        be_value(bytes[0], bytes[1], bytes[2], bytes[3]) == a,
{
    let b3: u8 = (a & 0x0000_00ff) as u8;
    let b2: u8 = ((a & 0x0000_ff00) >> 8) as u8;
    let b1: u8 = ((a & 0x00ff_0000) >> 16) as u8;
    let b0: u8 = ((a & 0xff00_0000) >> 24) as u8;
    assert((a & 0x0000_00ff) == a % 0x100) by (bit_vector);
    assert(((a & 0x0000_ff00) >> 8) == a / 0x100 % 0x100) by (bit_vector);
    assert(((a & 0x00ff_0000) >> 16) == a / 0x1_0000 % 0x100) by (bit_vector);
    assert(((a & 0xff00_0000) >> 24) == a / 0x100_0000) by (bit_vector);
    let result: [u8; 4] = [b0, b1, b2, b3];
    proof {
        assert(result@ =~= be_bytes(a));
        lemma_be_value_of_bytes(a);
    }
    result
}

} // verus!
