//! Little-endian 64-bit integers inside byte buffers.

use vstd::prelude::*;

verus! {

/// The unsigned integer that eight bytes spell, least significant byte first.
pub open spec fn spec_u64_from_le(s: Seq<u8>) -> u64
    recommends
        s.len() == 8,
{
    (s[0] as int
        + s[1] as int * 0x100
        + s[2] as int * 0x1_0000
        + s[3] as int * 0x100_0000
        + s[4] as int * 0x1_0000_0000
        + s[5] as int * 0x100_0000_0000
        + s[6] as int * 0x1_0000_0000_0000
        + s[7] as int * 0x100_0000_0000_0000) as u64
}

/// The eight bytes that spell an unsigned integer, least significant byte first.
pub open spec fn spec_u64_to_le(x: u64) -> Seq<u8> {
    seq![
        (x % 0x100) as u8,
        (x / 0x100 % 0x100) as u8,
        (x / 0x1_0000 % 0x100) as u8,
        (x / 0x100_0000 % 0x100) as u8,
        (x / 0x1_0000_0000 % 0x100) as u8,
        (x / 0x100_0000_0000 % 0x100) as u8,
        (x / 0x1_0000_0000_0000 % 0x100) as u8,
        (x / 0x100_0000_0000_0000 % 0x100) as u8,
    ]
}

/// The signed integer with the given two's-complement bit pattern.
pub open spec fn spec_to_signed(u: u64) -> i64 {
    if u < 0x8000_0000_0000_0000 {
        u as i64
    } else {
        (u - 0x1_0000_0000_0000_0000) as i64
    }
}

/// The two's-complement bit pattern of a signed integer.
pub open spec fn spec_to_unsigned(x: i64) -> u64 {
    if x >= 0 {
        x as u64
    } else {
        (x + 0x1_0000_0000_0000_0000) as u64
    }
}

/// The signed integer that eight bytes spell in two's complement, least
/// significant byte first.
pub open spec fn spec_i64_from_le(s: Seq<u8>) -> i64
    recommends
        s.len() == 8,
{
    spec_to_signed(spec_u64_from_le(s))
}

/// The eight bytes that spell a signed integer in two's complement, least
/// significant byte first.
pub open spec fn spec_i64_to_le(x: i64) -> Seq<u8> {
    spec_u64_to_le(spec_to_unsigned(x))
}

/// Encoding an unsigned integer and decoding the bytes gives the integer back.
pub proof fn lemma_u64_le_roundtrip(x: u64)
    ensures
        spec_u64_to_le(x).len() == 8,
        spec_u64_from_le(spec_u64_to_le(x)) == x,
{
    assert(x == (x % 0x100) + (x / 0x100 % 0x100) * 0x100 + (x / 0x1_0000 % 0x100) * 0x1_0000 + (x
        / 0x100_0000 % 0x100) * 0x100_0000 + (x / 0x1_0000_0000 % 0x100) * 0x1_0000_0000 + (x
        / 0x100_0000_0000 % 0x100) * 0x100_0000_0000 + (x / 0x1_0000_0000_0000 % 0x100)
        * 0x1_0000_0000_0000 + (x / 0x100_0000_0000_0000 % 0x100) * 0x100_0000_0000_0000)
        by (bit_vector);
}

/// Decoding eight bytes and encoding the integer gives the bytes back.
pub proof fn lemma_u64_le_bytes_roundtrip(s: Seq<u8>)
    requires
        s.len() == 8,
    ensures
        spec_u64_to_le(spec_u64_from_le(s)) == s,
{
    let (b0, b1, b2, b3, b4, b5, b6, b7) = (s[0], s[1], s[2], s[3], s[4], s[5], s[6], s[7]);
    let x = spec_u64_from_le(s);
    assert({
        &&& x % 0x100 == b0
        &&& x / 0x100 % 0x100 == b1
        &&& x / 0x1_0000 % 0x100 == b2
        &&& x / 0x100_0000 % 0x100 == b3
        &&& x / 0x1_0000_0000 % 0x100 == b4
        &&& x / 0x100_0000_0000 % 0x100 == b5
        &&& x / 0x1_0000_0000_0000 % 0x100 == b6
        &&& x / 0x100_0000_0000_0000 % 0x100 == b7
    }) by (bit_vector)
        requires
            x == b0 + b1 * 0x100 + b2 * 0x1_0000 + b3 * 0x100_0000 + b4 * 0x1_0000_0000 + b5
                * 0x100_0000_0000 + b6 * 0x1_0000_0000_0000 + b7 * 0x100_0000_0000_0000,
    ;
}

/// Encoding a signed integer and decoding the bytes gives the integer back.
pub proof fn lemma_i64_le_roundtrip(x: i64)
    ensures
        spec_i64_to_le(x).len() == 8,
        spec_i64_from_le(spec_i64_to_le(x)) == x,
{
    lemma_u64_le_roundtrip(spec_to_unsigned(x));
}

/// Decoding eight bytes as a signed integer and encoding it gives the bytes back.
pub proof fn lemma_i64_le_bytes_roundtrip(s: Seq<u8>)
    requires
        s.len() == 8,
    ensures
        spec_i64_to_le(spec_i64_from_le(s)) == s,
{
    lemma_u64_le_bytes_roundtrip(s);
}

/// Reads the unsigned integer stored at `at`.
pub fn read_u64_le(bytes: &[u8], at: usize) -> (x: u64)
    requires
        at + 8 <= bytes@.len(),
    ensures
        x == spec_u64_from_le(bytes@.subrange(at as int, at + 8)),
{
    bytes[at] as u64
        + bytes[at + 1] as u64 * 0x100
        + bytes[at + 2] as u64 * 0x1_0000
        + bytes[at + 3] as u64 * 0x100_0000
        + bytes[at + 4] as u64 * 0x1_0000_0000
        + bytes[at + 5] as u64 * 0x100_0000_0000
        + bytes[at + 6] as u64 * 0x1_0000_0000_0000
        + bytes[at + 7] as u64 * 0x100_0000_0000_0000
}

/// Reads the signed integer stored at `at`.
pub fn read_i64_le(bytes: &[u8], at: usize) -> (x: i64)
    requires
        at + 8 <= bytes@.len(),
    ensures
        x == spec_i64_from_le(bytes@.subrange(at as int, at + 8)),
{
    let u: u64 = read_u64_le(bytes, at);
    if u < 0x8000_0000_0000_0000 {
        u as i64
    } else {
        (u - 0x8000_0000_0000_0000) as i64 + i64::MIN
    }
}

/// Stores an unsigned integer at `at`, leaving every other byte as it was.
pub fn write_u64_le(buf: &mut [u8], at: usize, x: u64)
    requires
        at + 8 <= old(buf)@.len(),
    ensures
        final(buf)@ == old(buf)@.take(at as int) + spec_u64_to_le(x) + old(buf)@.skip(at + 8),
{
    buf[at] = (x % 0x100) as u8;
    buf[at + 1] = (x / 0x100 % 0x100) as u8;
    buf[at + 2] = (x / 0x1_0000 % 0x100) as u8;
    buf[at + 3] = (x / 0x100_0000 % 0x100) as u8;
    buf[at + 4] = (x / 0x1_0000_0000 % 0x100) as u8;
    buf[at + 5] = (x / 0x100_0000_0000 % 0x100) as u8;
    buf[at + 6] = (x / 0x1_0000_0000_0000 % 0x100) as u8;
    buf[at + 7] = (x / 0x100_0000_0000_0000 % 0x100) as u8;
}

/// Stores a signed integer at `at`, leaving every other byte as it was.
pub fn write_i64_le(buf: &mut [u8], at: usize, x: i64)
    requires
        at + 8 <= old(buf)@.len(),
    ensures
        final(buf)@ == old(buf)@.take(at as int) + spec_i64_to_le(x) + old(buf)@.skip(at + 8),
{
    let u: u64 = if x >= 0 {
        x as u64
    } else {
        (x - i64::MIN) as u64 + 0x8000_0000_0000_0000
    };
    write_u64_le(buf, at, u);
}

} // verus!
