//! Little-endian integers, as sequences of bytes.

use vstd::prelude::*;

verus! {

/// The two bytes of `x`, low byte first.
pub open spec fn u16_le(x: u16) -> Seq<u8> {
    seq![(x % 256) as u8, (x / 256) as u8]
}

/// The four bytes of `x`, low byte first.
pub open spec fn u32_le(x: u32) -> Seq<u8> {
    seq![
        (x % 256) as u8,
        (x / 256 % 256) as u8,
        (x / 65536 % 256) as u8,
        (x / 16777216) as u8,
    ]
}

/// The value of two bytes, low byte first.
pub open spec fn u16_of(lo: u8, hi: u8) -> u16 {
    (lo + 256 * hi) as u16
}

/// The value of four bytes, low byte first.
pub open spec fn u32_of(b0: u8, b1: u8, b2: u8, b3: u8) -> u32 {
    (b0 + 256 * b1 + 65536 * b2 + 16777216 * b3) as u32
}

/// The unsigned number with the same sixteen bits as `x`.
pub open spec fn i16_bits(x: i16) -> u16 {
    if x < 0 {
        (x + 65536) as u16
    } else {
        x as u16
    }
}

/// The signed number with the same sixteen bits as `x`.
pub open spec fn i16_of_bits(x: u16) -> i16 {
    if x >= 32768 {
        (x - 65536) as i16
    } else {
        x as i16
    }
}

/// Reading back the bytes of a 32-bit number gives the number.
pub proof fn lemma_u32_roundtrip(x: u32)
    ensures
        u32_of(u32_le(x)[0], u32_le(x)[1], u32_le(x)[2], u32_le(x)[3]) == x,
{
}

/// Two numbers with the same bytes are equal.
pub proof fn lemma_u32_le_injective(x: u32, y: u32)
    requires
        u32_le(x) == u32_le(y),
    ensures
        x == y,
{
    lemma_u32_roundtrip(x);
    lemma_u32_roundtrip(y);
}

/// A signed number is recovered from its bits.
pub proof fn lemma_i16_roundtrip(x: i16)
    ensures
        i16_of_bits(i16_bits(x)) == x,
{
}

/// Appends the two bytes of `x`.
pub fn push_u16_le(out: &mut Vec<u8>, x: u16)
    ensures
        final(out)@ == old(out)@ + u16_le(x),
{
    out.push((x % 256) as u8);
    out.push((x / 256) as u8);
    assert(out@ =~= old(out)@ + u16_le(x));
}

/// Appends the two bytes of the signed number `x`, in two's complement.
pub fn push_i16_le(out: &mut Vec<u8>, x: i16)
    ensures
        final(out)@ == old(out)@ + u16_le(i16_bits(x)),
{
    let bits: u16 = if x < 0 {
        (x as i32 + 65536) as u16
    } else {
        x as u16
    };
    push_u16_le(out, bits);
}

/// Appends the four bytes of `x`.
pub fn push_u32_le(out: &mut Vec<u8>, x: u32)
    ensures
        final(out)@ == old(out)@ + u32_le(x),
{
    out.push((x % 256) as u8);
    out.push((x / 256 % 256) as u8);
    out.push((x / 65536 % 256) as u8);
    out.push((x / 16777216) as u8);
    assert(out@ =~= old(out)@ + u32_le(x));
}

/// Reads the two bytes at `at`.
pub fn read_u16_le(buf: &[u8], at: usize) -> (x: u16)
    requires
        at + 2 <= buf@.len(),
    ensures
        x == u16_of(buf@[at as int], buf@[at + 1]),
{
    buf[at] as u16 + 256 * (buf[at + 1] as u16)
}

/// Reads the two bytes at `at` as a signed number.
pub fn read_i16_le(buf: &[u8], at: usize) -> (x: i16)
    requires
        at + 2 <= buf@.len(),
    ensures
        x == i16_of_bits(u16_of(buf@[at as int], buf@[at + 1])),
{
    let bits: u16 = read_u16_le(buf, at);
    if bits >= 32768 {
        (bits as i32 - 65536) as i16
    } else {
        bits as i16
    }
}

/// Reads the four bytes at `at`.
pub fn read_u32_le(buf: &[u8], at: usize) -> (x: u32)
    requires
        at + 4 <= buf@.len(),
    ensures
        x == u32_of(buf@[at as int], buf@[at + 1], buf@[at + 2], buf@[at + 3]),
{
    buf[at] as u32 + 256 * (buf[at + 1] as u32) + 65536 * (buf[at + 2] as u32) + 16777216 * (buf[at
        + 3] as u32)
}

} // verus!
