//! Little-endian integers, read from and appended to byte buffers.
use byteorder::{ByteOrder, LittleEndian, WriteBytesExt};
use vstd::prelude::*;

verus! {

/// The two bytes of `n`, least significant first.
pub open spec fn u16_le(n: u16) -> Seq<u8> {
    seq![n as u8, (n >> 8u16) as u8]
}

/// The four bytes of `n`, least significant first.
pub open spec fn u32_le(n: u32) -> Seq<u8> {
    seq![n as u8, (n >> 8u32) as u8, (n >> 16u32) as u8, (n >> 24u32) as u8]
}

/// The eight bytes of `n`, least significant first.
pub open spec fn u64_le(n: u64) -> Seq<u8> {
    seq![
        n as u8, (n >> 8u64) as u8, (n >> 16u64) as u8, (n >> 24u64) as u8,
        (n >> 32u64) as u8, (n >> 40u64) as u8, (n >> 48u64) as u8, (n >> 56u64) as u8,
    ]
}

/// The eight bytes of `n` in two's complement, least significant first.
pub open spec fn i64_le(n: i64) -> Seq<u8> {
    u64_le(n as u64)
}

/// The integer stored little-endian in `s[at]`, `s[at + 1]`.
pub open spec fn u16_at(s: Seq<u8>, at: int) -> u16 {
    (s[at] as u16) | ((s[at + 1] as u16) << 8u16)
}

/// The integer stored little-endian in the four bytes of `s` from `at`.
pub open spec fn u32_at(s: Seq<u8>, at: int) -> u32 {
    (s[at] as u32) | ((s[at + 1] as u32) << 8u32) | ((s[at + 2] as u32) << 16u32) | ((s[at
        + 3] as u32) << 24u32)
}

/// The integer stored little-endian in the eight bytes of `s` from `at`.
pub open spec fn u64_at(s: Seq<u8>, at: int) -> u64 {
    (s[at] as u64) | ((s[at + 1] as u64) << 8u64) | ((s[at + 2] as u64) << 16u64) | ((s[at
        + 3] as u64) << 24u64) | ((s[at + 4] as u64) << 32u64) | ((s[at + 5] as u64) << 40u64)
        | ((s[at + 6] as u64) << 48u64) | ((s[at + 7] as u64) << 56u64)
}

/// The two's complement integer stored little-endian in the eight bytes of `s` from `at`.
pub open spec fn i64_at(s: Seq<u8>, at: int) -> i64 {
    u64_at(s, at) as i64
}

/// Relies on byteorder's `LittleEndian::read_u16`: the first two bytes of its
/// argument, least significant first.
#[verifier::external_body]
pub(crate) fn read_u16_le(buf: &[u8], at: usize) -> (r: u16)
    requires
        at + 2 <= buf@.len(),
    ensures
        r == u16_at(buf@, at as int),
{
    LittleEndian::read_u16(&buf[at..])
}

/// Relies on byteorder's `LittleEndian::read_u32`: the first four bytes of its
/// argument, least significant first.
#[verifier::external_body]
pub(crate) fn read_u32_le(buf: &[u8], at: usize) -> (r: u32)
    requires
        at + 4 <= buf@.len(),
    ensures
        r == u32_at(buf@, at as int),
{
    LittleEndian::read_u32(&buf[at..])
}

/// Relies on byteorder's `LittleEndian::read_i64`: the first eight bytes of its
/// argument, least significant first, taken as two's complement.
#[verifier::external_body]
pub(crate) fn read_i64_le(buf: &[u8], at: usize) -> (r: i64)
    requires
        at + 8 <= buf@.len(),
    ensures
        r == i64_at(buf@, at as int),
{
    LittleEndian::read_i64(&buf[at..])
}

/// Relies on byteorder's `WriteBytesExt::write_u16` with `LittleEndian`: on a
/// `Vec<u8>` it appends the two bytes of `n`, least significant first.
#[verifier::external_body]
pub(crate) fn write_u16_le(dst: &mut Vec<u8>, n: u16)
    ensures
        final(dst)@ == old(dst)@ + u16_le(n),
{
    let _ = dst.write_u16::<LittleEndian>(n);
}

/// Relies on byteorder's `WriteBytesExt::write_u32` with `LittleEndian`: on a
/// `Vec<u8>` it appends the four bytes of `n`, least significant first.
#[verifier::external_body]
pub(crate) fn write_u32_le(dst: &mut Vec<u8>, n: u32)
    ensures
        final(dst)@ == old(dst)@ + u32_le(n),
{
    let _ = dst.write_u32::<LittleEndian>(n);
}

/// Relies on byteorder's `WriteBytesExt::write_i64` with `LittleEndian`: on a
/// `Vec<u8>` it appends the eight bytes of `n` in two's complement, least
/// significant first.
#[verifier::external_body]
pub(crate) fn write_i64_le(dst: &mut Vec<u8>, n: i64)
    ensures
        final(dst)@ == old(dst)@ + i64_le(n),
{
    let _ = dst.write_i64::<LittleEndian>(n);
}

/// Reading back the two bytes of `n` gives `n`.
pub proof fn lemma_u16_read_write(n: u16)
    ensures
        u16_at(u16_le(n), 0) == n,
{
    let b0 = n as u8;
    let b1 = (n >> 8u16) as u8;
    assert((b0 as u16) | ((b1 as u16) << 8u16) == n) by (bit_vector)
        requires
            b0 == n as u8,
            b1 == (n >> 8u16) as u8,
    ;
}

/// The two bytes at `at` are those of the integer read there.
pub proof fn lemma_u16_write_read(s: Seq<u8>, at: int)
    requires
        0 <= at,
        at + 2 <= s.len(),
    ensures
        u16_le(u16_at(s, at)) == s.subrange(at, at + 2),
{
    let b0 = s[at];
    let b1 = s[at + 1];
    let n = u16_at(s, at);
    assert(n as u8 == b0 && (n >> 8u16) as u8 == b1) by (bit_vector)
        requires
            n == (b0 as u16) | ((b1 as u16) << 8u16),
    ;
    assert(u16_le(n) =~= s.subrange(at, at + 2));
}

/// Reading back the four bytes of `n` gives `n`.
pub proof fn lemma_u32_read_write(n: u32)
    ensures
        u32_at(u32_le(n), 0) == n,
{
    let b = u32_le(n);
    let (b0, b1, b2, b3) = (b[0], b[1], b[2], b[3]);
    assert((b0 as u32) | ((b1 as u32) << 8u32) | ((b2 as u32) << 16u32) | ((b3 as u32) << 24u32)
        == n) by (bit_vector)
        requires
            b0 == n as u8,
            b1 == (n >> 8u32) as u8,
            b2 == (n >> 16u32) as u8,
            b3 == (n >> 24u32) as u8,
    ;
}

/// The four bytes at `at` are those of the integer read there.
pub proof fn lemma_u32_write_read(s: Seq<u8>, at: int)
    requires
        0 <= at,
        at + 4 <= s.len(),
    ensures
        u32_le(u32_at(s, at)) == s.subrange(at, at + 4),
{
    let (b0, b1, b2, b3) = (s[at], s[at + 1], s[at + 2], s[at + 3]);
    let n = u32_at(s, at);
    assert(n as u8 == b0 && (n >> 8u32) as u8 == b1 && (n >> 16u32) as u8 == b2 && (n >> 24u32) as u8
        == b3) by (bit_vector)
        requires
            n == (b0 as u32) | ((b1 as u32) << 8u32) | ((b2 as u32) << 16u32) | ((b3 as u32) << 24u32),
    ;
    assert(u32_le(n) =~= s.subrange(at, at + 4));
}

/// Reading back the eight bytes of `n` gives `n`.
pub proof fn lemma_u64_read_write(n: u64)
    ensures
        u64_at(u64_le(n), 0) == n,
{
    let b = u64_le(n);
    let (b0, b1, b2, b3, b4, b5, b6, b7) = (b[0], b[1], b[2], b[3], b[4], b[5], b[6], b[7]);
    assert((b0 as u64) | ((b1 as u64) << 8u64) | ((b2 as u64) << 16u64) | ((b3 as u64) << 24u64)
        | ((b4 as u64) << 32u64) | ((b5 as u64) << 40u64) | ((b6 as u64) << 48u64) | ((b7 as u64)
        << 56u64) == n) by (bit_vector)
        requires
            b0 == n as u8,
            b1 == (n >> 8u64) as u8,
            b2 == (n >> 16u64) as u8,
            b3 == (n >> 24u64) as u8,
            b4 == (n >> 32u64) as u8,
            b5 == (n >> 40u64) as u8,
            b6 == (n >> 48u64) as u8,
            b7 == (n >> 56u64) as u8,
    ;
}

/// The eight bytes at `at` are those of the integer read there.
pub proof fn lemma_u64_write_read(s: Seq<u8>, at: int)
    requires
        0 <= at,
        at + 8 <= s.len(),
    ensures
        u64_le(u64_at(s, at)) == s.subrange(at, at + 8),
{
    let (b0, b1, b2, b3) = (s[at], s[at + 1], s[at + 2], s[at + 3]);
    let (b4, b5, b6, b7) = (s[at + 4], s[at + 5], s[at + 6], s[at + 7]);
    let n = u64_at(s, at);
    assert(n as u8 == b0 && (n >> 8u64) as u8 == b1 && (n >> 16u64) as u8 == b2 && (n >> 24u64) as u8
        == b3 && (n >> 32u64) as u8 == b4 && (n >> 40u64) as u8 == b5 && (n >> 48u64) as u8 == b6
        && (n >> 56u64) as u8 == b7) by (bit_vector)
        requires
            n == (b0 as u64) | ((b1 as u64) << 8u64) | ((b2 as u64) << 16u64) | ((b3 as u64) << 24u64)
                | ((b4 as u64) << 32u64) | ((b5 as u64) << 40u64) | ((b6 as u64) << 48u64) | ((b7
                as u64) << 56u64),
    ;
    assert(u64_le(n) =~= s.subrange(at, at + 8));
}

/// Reading back the eight bytes of `n` gives `n`.
pub proof fn lemma_i64_read_write(n: i64)
    ensures
        i64_at(i64_le(n), 0) == n,
{
    lemma_u64_read_write(n as u64);
    assert(((n as u64) as i64) == n) by (bit_vector);
}

/// The eight bytes at `at` are those of the integer read there.
pub proof fn lemma_i64_write_read(s: Seq<u8>, at: int)
    requires
        0 <= at,
        at + 8 <= s.len(),
    ensures
        i64_le(i64_at(s, at)) == s.subrange(at, at + 8),
{
    lemma_u64_write_read(s, at);
    let x = u64_at(s, at);
    assert(((x as i64) as u64) == x) by (bit_vector);
}

} // verus!
