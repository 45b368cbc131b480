//! Little-endian integers as they stand in a RIFF/WAVE file, read and written
//! through `byteorder`.
use byteorder::{ByteOrder, LittleEndian, WriteBytesExt};
use vstd::prelude::*;

verus! {

/// The value of two bytes, least significant first, as an unsigned integer.
pub open spec fn u16_le(b0: u8, b1: u8) -> int {
    b0 as int + 256 * (b1 as int)
}

/// The value of four bytes, least significant first, as an unsigned integer.
pub open spec fn u32_le(b0: u8, b1: u8, b2: u8, b3: u8) -> int {
    b0 as int + 256 * (b1 as int) + 65536 * (b2 as int) + 16777216 * (b3 as int)
}

/// Two bytes, least significant first, read as a two's-complement integer.
pub open spec fn i16_le(b0: u8, b1: u8) -> int {
    let u = u16_le(b0, b1);
    if u < 32768 { u } else { u - 65536 }
}

/// Four bytes, least significant first, read as a two's-complement integer.
pub open spec fn i32_le(b0: u8, b1: u8, b2: u8, b3: u8) -> int {
    let u = u32_le(b0, b1, b2, b3);
    if u < 2147483648 { u } else { u - 4294967296 }
}

/// The unsigned 16-bit pattern of a signed 16-bit value.
pub open spec fn twos16(x: int) -> int {
    if x < 0 { x + 65536 } else { x }
}

/// The unsigned 32-bit pattern of a signed 32-bit value.
pub open spec fn twos32(x: int) -> int {
    if x < 0 { x + 4294967296 } else { x }
}

/// The two low bytes of `u`, least significant first.
pub open spec fn bytes2(u: int) -> Seq<u8> {
    seq![(u % 256) as u8, ((u / 256) % 256) as u8]
}

/// The four low bytes of `u`, least significant first.
pub open spec fn bytes4(u: int) -> Seq<u8> {
    seq![
        (u % 256) as u8,
        ((u / 256) % 256) as u8,
        ((u / 65536) % 256) as u8,
        ((u / 16777216) % 256) as u8,
    ]
}

/// Relies on byteorder's `LittleEndian::read_u16`: the two bytes at `at`,
/// least significant first.
#[verifier::external_body]
pub(crate) fn read_u16_at(b: &[u8], at: usize) -> (r: u16)
    requires
        at + 2 <= b@.len(),
    ensures
        r as int == u16_le(b@[at as int], b@[at + 1]),
{
    LittleEndian::read_u16(&b[at..])
}

/// Relies on byteorder's `LittleEndian::read_u32`: the four bytes at `at`,
/// least significant first.
#[verifier::external_body]
pub(crate) fn read_u32_at(b: &[u8], at: usize) -> (r: u32)
    requires
        at + 4 <= b@.len(),
    ensures
        r as int == u32_le(b@[at as int], b@[at + 1], b@[at + 2], b@[at + 3]),
{
    LittleEndian::read_u32(&b[at..])
}

/// Relies on byteorder's `LittleEndian::read_i16`: the two bytes at `at`,
/// least significant first, in two's complement.
#[verifier::external_body]
pub(crate) fn read_i16_at(b: &[u8], at: usize) -> (r: i16)
    requires
        at + 2 <= b@.len(),
    ensures
        r as int == i16_le(b@[at as int], b@[at + 1]),
{
    LittleEndian::read_i16(&b[at..])
}

/// Relies on byteorder's `LittleEndian::read_i32`: the four bytes at `at`,
/// least significant first, in two's complement.
#[verifier::external_body]
pub(crate) fn read_i32_at(b: &[u8], at: usize) -> (r: i32)
    requires
        at + 4 <= b@.len(),
    ensures
        r as int == i32_le(b@[at as int], b@[at + 1], b@[at + 2], b@[at + 3]),
{
    LittleEndian::read_i32(&b[at..])
}

/// Relies on byteorder's `WriteBytesExt::write_u16` on a `Vec<u8>`, which
/// appends the two bytes of `n`, least significant first.
#[verifier::external_body]
pub(crate) fn push_u16(out: &mut Vec<u8>, n: u16)
    ensures
        final(out)@ == old(out)@ + bytes2(n as int),
{
    let _ = out.write_u16::<LittleEndian>(n);
}

/// Relies on byteorder's `WriteBytesExt::write_u32` on a `Vec<u8>`, which
/// appends the four bytes of `n`, least significant first.
#[verifier::external_body]
pub(crate) fn push_u32(out: &mut Vec<u8>, n: u32)
    ensures
        final(out)@ == old(out)@ + bytes4(n as int),
{
    let _ = out.write_u32::<LittleEndian>(n);
}

/// Relies on byteorder's `WriteBytesExt::write_i16` on a `Vec<u8>`, which
/// appends the two bytes of `n` in two's complement, least significant first.
#[verifier::external_body]
pub(crate) fn push_i16(out: &mut Vec<u8>, n: i16)
    ensures
        final(out)@ == old(out)@ + bytes2(twos16(n as int)),
{
    let _ = out.write_i16::<LittleEndian>(n);
}

/// Relies on byteorder's `WriteBytesExt::write_i32` on a `Vec<u8>`, which
/// appends the four bytes of `n` in two's complement, least significant first.
#[verifier::external_body]
pub(crate) fn push_i32(out: &mut Vec<u8>, n: i32)
    ensures
        final(out)@ == old(out)@ + bytes4(twos32(n as int)),
{
    let _ = out.write_i32::<LittleEndian>(n);
}

/// Two bytes written from an unsigned 16-bit value read back as that value.
pub proof fn lemma_u16_round_trip(x: int)
    requires
        0 <= x < 65536,
    ensures
        bytes2(x).len() == 2,
        u16_le(bytes2(x)[0], bytes2(x)[1]) == x,
{
    assert(0 <= x % 256 < 256);
    assert(0 <= (x / 256) % 256 < 256);
    assert(x / 256 < 256);
    assert((x / 256) % 256 == x / 256);
    assert(x % 256 + 256 * (x / 256) == x);
}

/// Four bytes written from an unsigned 32-bit value read back as that value.
pub proof fn lemma_u32_round_trip(x: int)
    requires
        0 <= x < 4294967296,
    ensures
        bytes4(x).len() == 4,
        u32_le(bytes4(x)[0], bytes4(x)[1], bytes4(x)[2], bytes4(x)[3]) == x,
{
    let a = x % 256;
    let q1 = x / 256;
    let b = q1 % 256;
    let q2 = q1 / 256;
    let c = q2 % 256;
    let d = q2 / 256;
    assert(x == a + 256 * q1);
    assert(q1 == b + 256 * q2);
    assert(q2 == c + 256 * d);
    assert(q2 == x / 65536) by {
        vstd::arithmetic::div_mod::lemma_div_denominator(x, 256, 256);
    }
    assert(d == x / 16777216) by {
        vstd::arithmetic::div_mod::lemma_div_denominator(x, 65536, 256);
    }
    assert(0 <= d < 256);
    assert(d % 256 == d);
}

/// A signed 16-bit value written and read back is unchanged.
pub proof fn lemma_i16_round_trip(x: int)
    requires
        -32768 <= x < 32768,
    ensures
        bytes2(twos16(x)).len() == 2,
        i16_le(bytes2(twos16(x))[0], bytes2(twos16(x))[1]) == x,
{
    lemma_u16_round_trip(twos16(x));
}

/// A signed 32-bit value written and read back is unchanged.
pub proof fn lemma_i32_round_trip(x: int)
    requires
        -2147483648 <= x < 2147483648,
    ensures
        bytes4(twos32(x)).len() == 4,
        i32_le(bytes4(twos32(x))[0], bytes4(twos32(x))[1], bytes4(twos32(x))[2], bytes4(twos32(x))[3])
            == x,
{
    lemma_u32_round_trip(twos32(x));
}

} // verus!
