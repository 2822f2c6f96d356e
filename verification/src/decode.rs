//! Decoding of the sensor's big-endian two's-complement register values.
use vstd::prelude::*;

verus! {

/// The value of the two's-complement 16-bit integer whose big-endian bytes are `hi`, `lo`.
pub open spec fn be_i16(hi: u8, lo: u8) -> int {
    let u = hi as int * 256 + lo as int;
    if u >= 0x8000 {
        u - 0x10000
    } else {
        u
    }
}

/// The value of axis `axis` (0 = X, 1 = Y, 2 = Z) in a block of consecutive
/// big-endian 16-bit registers.
pub open spec fn axis_value(bytes: Seq<u8>, axis: int) -> int {
    be_i16(bytes[2 * axis], bytes[2 * axis + 1])
}

/// The X, Y and Z values held in a six-byte register block.
pub open spec fn triple_value(bytes: Seq<u8>) -> (int, int, int) {
    (axis_value(bytes, 0), axis_value(bytes, 1), axis_value(bytes, 2))
}

/// The high byte of the big-endian encoding of `v`.
pub open spec fn be_high_byte(v: int) -> int {
    (if v < 0 { v + 0x10000 } else { v }) / 256
}

/// The low byte of the big-endian encoding of `v`.
pub open spec fn be_low_byte(v: int) -> int {
    (if v < 0 { v + 0x10000 } else { v }) % 256
}

/// Decoding is the inverse of big-endian encoding: the two bytes of any
/// 16-bit value decode to that value.
pub proof fn law_decoding_inverts_encoding(v: i16)
    ensures
        0 <= be_high_byte(v as int) < 256,
        0 <= be_low_byte(v as int) < 256,
        be_i16(be_high_byte(v as int) as u8, be_low_byte(v as int) as u8) == v,
{
    let u: int = if v < 0 { v + 0x10000 } else { v as int };
    assert(0 <= u < 0x10000);
    assert(u == (u / 256) * 256 + u % 256);
}

/// Decodes the big-endian bytes `hi`, `lo` as an `i16`, as `i16::from_be_bytes` does.
pub fn decode_be_i16(hi: u8, lo: u8) -> (v: i16)
    ensures
        v == be_i16(hi, lo),
{
    let u: u32 = (hi as u32) * 256 + (lo as u32);
    if u >= 0x8000 {
        (u as i32 - 0x10000) as i16
    } else {
        u as i16
    }
}

/// Decodes a six-byte register block into its X, Y and Z values.
pub fn decode_triple(buf: &[u8; 6]) -> (t: (i16, i16, i16))
    ensures
        t.0 == axis_value(buf@, 0),
        t.1 == axis_value(buf@, 1),
        t.2 == axis_value(buf@, 2),
{
    (
        decode_be_i16(buf[0], buf[1]),
        decode_be_i16(buf[2], buf[3]),
        decode_be_i16(buf[4], buf[5]),
    )
}

} // verus!
