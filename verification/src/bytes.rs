//! Big-endian integers as byte sequences.

use vstd::prelude::*;

verus! {

/// The two bytes of `x`, most significant first.
pub open spec fn be16(x: u16) -> Seq<u8> {
    seq![(x / 256) as u8, (x % 256) as u8]
}

/// The number whose two bytes, most significant first, are `hi` and `lo`.
pub open spec fn be16_value(hi: u8, lo: u8) -> u16 {
    (hi * 256 + lo) as u16
}

/// The four bytes of `x`, most significant first.
pub open spec fn be32(x: u32) -> Seq<u8> {
    be16((x / 65536) as u16) + be16((x % 65536) as u16)
}

/// The number whose four bytes, most significant first, are `a`, `b`, `c` and `d`.
pub open spec fn be32_value(a: u8, b: u8, c: u8, d: u8) -> u32 {
    (be16_value(a, b) * 65536 + be16_value(c, d)) as u32
}

/// Reads a big-endian 16-bit number.
pub fn u16_from_be(hi: u8, lo: u8) -> (x: u16)
    ensures
        x == be16_value(hi, lo),
{
    hi as u16 * 256 + lo as u16
}

/// Writes a big-endian 16-bit number.
pub fn u16_to_be(x: u16) -> (b: [u8; 2])
    ensures
        b@ == be16(x),
{
    let b = [(x / 256) as u8, (x % 256) as u8];
    assert(b@ =~= be16(x));
    b
}

/// Reads a big-endian 32-bit number.
pub fn u32_from_be(a: u8, b: u8, c: u8, d: u8) -> (x: u32)
    ensures
        x == be32_value(a, b, c, d),
{
    u16_from_be(a, b) as u32 * 65536 + u16_from_be(c, d) as u32
}

/// Writes a big-endian 32-bit number.
pub fn u32_to_be(x: u32) -> (b: [u8; 4])
    ensures
        b@ == be32(x),
{
    let hi = u16_to_be((x / 65536) as u16);
    let lo = u16_to_be((x % 65536) as u16);
    let b = [hi[0], hi[1], lo[0], lo[1]];
    assert(b@ =~= hi@ + lo@);
    b
}

/// A 16-bit number is recovered from its bytes, and the bytes from the number.
pub proof fn law_be16_round_trip(x: u16, hi: u8, lo: u8)
    ensures
        be16_value(be16(x)[0], be16(x)[1]) == x,
        be16(be16_value(hi, lo)) == seq![hi, lo],
{
    assert(be16(be16_value(hi, lo)) =~= seq![hi, lo]);
}

/// A 32-bit number is recovered from its bytes, and the bytes from the number.
pub proof fn law_be32_round_trip(x: u32, a: u8, b: u8, c: u8, d: u8)
    ensures
        be32_value(be32(x)[0], be32(x)[1], be32(x)[2], be32(x)[3]) == x,
        be32(be32_value(a, b, c, d)) == seq![a, b, c, d],
{
    let hi = (x / 65536) as u16;
    let lo = (x % 65536) as u16;
    law_be16_round_trip(hi, a, b);
    law_be16_round_trip(lo, c, d);
    assert(be32(x)[0] == be16(hi)[0] && be32(x)[1] == be16(hi)[1]);
    assert(be32(x)[2] == be16(lo)[0] && be32(x)[3] == be16(lo)[1]);
    let v = be32_value(a, b, c, d);
    assert(v / 65536 == be16_value(a, b) && v % 65536 == be16_value(c, d));
    assert(be32(v) == seq![a, b] + seq![c, d]);
    assert(seq![a, b] + seq![c, d] =~= seq![a, b, c, d]);
}

/// The first byte of a number weighs most: each byte weighs 256 times the one after it.
pub proof fn law_bytes_weigh(x: u16, y: u32, a: u8, b: u8, c: u8, d: u8)
    ensures
        be16(x).len() == 2,
        256 * be16(x)[0] + be16(x)[1] == x,
        be16_value(a, b) == 256 * a + b,
        be32(y).len() == 4,
        0x1000000 * be32(y)[0] + 0x10000 * be32(y)[1] + 0x100 * be32(y)[2] + be32(y)[3] == y,
        be32_value(a, b, c, d) == 0x1000000 * a + 0x10000 * b + 0x100 * c + d,
{
    law_be32_round_trip(y, a, b, c, d);
}

} // verus!
