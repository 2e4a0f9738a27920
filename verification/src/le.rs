//! Little-endian integer encodings used by every CORA field.

use vstd::prelude::*;

verus! {

/// The two little-endian bytes of `v`.
pub open spec fn le_u16(v: u16) -> Seq<u8> {
    seq![(v % 256) as u8, (v / 256) as u8]
}

/// The four little-endian bytes of `v`.
pub open spec fn le_u32(v: u32) -> Seq<u8> {
    seq![(v % 256) as u8, ((v / 256) % 256) as u8, ((v / 65536) % 256) as u8, (v / 16777216) as u8]
}

/// The value of two little-endian bytes.
pub open spec fn u16_from_le(b0: u8, b1: u8) -> u16 {
    (b0 + 256 * b1) as u16
}

/// The value of four little-endian bytes.
pub open spec fn u32_from_le(b0: u8, b1: u8, b2: u8, b3: u8) -> u32 {
    (b0 + 256 * b1 + 65536 * b2 + 16777216 * b3) as u32
}

/// Reading back two bytes gives the value they were written from.
pub proof fn lemma_u16_roundtrip(v: u16)
    ensures
        u16_from_le(le_u16(v)[0], le_u16(v)[1]) == v,
{
}

/// Reading back four bytes gives the value they were written from.
pub proof fn lemma_u32_roundtrip(v: u32)
    ensures
        u32_from_le(le_u32(v)[0], le_u32(v)[1], le_u32(v)[2], le_u32(v)[3]) == v,
{
    let b0 = v % 256;
    let b1 = (v / 256) % 256;
    let b2 = (v / 65536) % 256;
    let b3 = v / 16777216;
    assert(b0 + 256 * b1 + 65536 * b2 + 16777216 * b3 == v) by (nonlinear_arith)
        requires
            b0 == v % 256,
            b1 == (v / 256) % 256,
            b2 == (v / 65536) % 256,
            b3 == v / 16777216,
            0 <= v < 0x1_0000_0000,
    ;
}

/// The little-endian bytes of a `u16`.
pub fn u16_to_le(v: u16) -> (r: [u8; 2])
    ensures
        r@ == le_u16(v),
{
    let r = [(v % 256) as u8, (v / 256) as u8];
    assert(r@ =~= le_u16(v));
    r
}

/// The little-endian bytes of a `u32`.
pub fn u32_to_le(v: u32) -> (r: [u8; 4])
    ensures
        r@ == le_u32(v),
{
    let r = [(v % 256) as u8, ((v / 256) % 256) as u8, ((v / 65536) % 256) as u8, (v / 16777216) as u8];
    assert(r@ =~= le_u32(v));
    r
}

/// The `u16` held by two little-endian bytes.
pub fn u16_of_le(b0: u8, b1: u8) -> (r: u16)
    ensures
        r == u16_from_le(b0, b1),
{
    (b0 as u16) + (b1 as u16) * 256
}

/// The `u32` held by four little-endian bytes.
pub fn u32_of_le(b0: u8, b1: u8, b2: u8, b3: u8) -> (r: u32)
    ensures
        r == u32_from_le(b0, b1, b2, b3),
{
    (b0 as u32) + (b1 as u32) * 256 + (b2 as u32) * 65536 + (b3 as u32) * 16777216
}

} // verus!
