//! Big-endian two's-complement encoding of the protocol's fixed-width
//! signed integers.

use vstd::prelude::*;

verus! {

/// The signed 16-bit integer whose big-endian encoding is `b0 b1`.
pub open spec fn int16_from_be(b0: u8, b1: u8) -> i16 {
    let u = b0 as int * 0x100 + b1 as int;
    if u >= 0x8000 {
        (u - 0x1_0000) as i16
    } else {
        u as i16
    }
}

/// The signed 32-bit integer whose big-endian encoding is `b0 b1 b2 b3`.
pub open spec fn int32_from_be(b0: u8, b1: u8, b2: u8, b3: u8) -> i32 {
    let u = b0 as int * 0x100_0000 + b1 as int * 0x1_0000 + b2 as int * 0x100 + b3 as int;
    if u >= 0x8000_0000 {
        (u - 0x1_0000_0000) as i32
    } else {
        u as i32
    }
}

/// The two bytes that encode `v`, most significant first.
pub open spec fn int16_to_be(v: i16) -> Seq<u8> {
    let u = if v < 0 {
        v + 0x1_0000
    } else {
        v as int
    };
    seq![(u / 0x100) as u8, (u % 0x100) as u8]
}

/// The four bytes that encode `v`, most significant first.
pub open spec fn int32_to_be(v: i32) -> Seq<u8> {
    let u = if v < 0 {
        v + 0x1_0000_0000
    } else {
        v as int
    };
    seq![
        (u / 0x100_0000) as u8,
        (u / 0x1_0000 % 0x100) as u8,
        (u / 0x100 % 0x100) as u8,
        (u % 0x100) as u8,
    ]
}

/// Decoding the encoding of a 16-bit integer gives the integer back.
pub proof fn lemma_int16_round_trip(v: i16)
    ensures
        int16_to_be(v).len() == 2,
        int16_from_be(int16_to_be(v)[0], int16_to_be(v)[1]) == v,
{
}

/// Decoding the encoding of a 32-bit integer gives the integer back.
pub proof fn lemma_int32_round_trip(v: i32)
    ensures
        int32_to_be(v).len() == 4,
        int32_from_be(
            int32_to_be(v)[0],
            int32_to_be(v)[1],
            int32_to_be(v)[2],
            int32_to_be(v)[3],
        ) == v,
{
}

/// Decodes a big-endian signed 16-bit integer from its two bytes.
pub fn decode_int16(b0: u8, b1: u8) -> (v: i16)
    ensures
        v == int16_from_be(b0, b1),
{
    let u: i32 = (b0 as i32) * 0x100 + (b1 as i32);
    if u >= 0x8000 {
        (u - 0x1_0000) as i16
    } else {
        u as i16
    }
}

/// Decodes a big-endian signed 32-bit integer from its four bytes.
pub fn decode_int32(b0: u8, b1: u8, b2: u8, b3: u8) -> (v: i32)
    ensures
        v == int32_from_be(b0, b1, b2, b3),
{
    let u: i64 = (b0 as i64) * 0x100_0000 + (b1 as i64) * 0x1_0000 + (b2 as i64) * 0x100 + (
    b3 as i64);
    if u >= 0x8000_0000 {
        (u - 0x1_0000_0000) as i32
    } else {
        u as i32
    }
}

/// Appends the big-endian encoding of `v` to `out`.
pub fn put_int16(out: &mut Vec<u8>, v: i16)
    ensures
        final(out)@ == old(out)@ + int16_to_be(v),
{
    let u: i32 = if v < 0 {
        v as i32 + 0x1_0000
    } else {
        v as i32
    };
    out.push((u / 0x100) as u8);
    out.push((u % 0x100) as u8);
}

/// Appends the big-endian encoding of `v` to `out`.
pub fn put_int32(out: &mut Vec<u8>, v: i32)
    ensures
        final(out)@ == old(out)@ + int32_to_be(v),
{
    let u: i64 = if v < 0 {
        v as i64 + 0x1_0000_0000
    } else {
        v as i64
    };
    out.push((u / 0x100_0000) as u8);
    out.push((u / 0x1_0000 % 0x100) as u8);
    out.push((u / 0x100 % 0x100) as u8);
    out.push((u % 0x100) as u8);
}

} // verus!
