//! Little-endian integers inside byte buffers.
//!
//! The arithmetic meaning of a field is given by [`le_u32`] and [`le_u64`];
//! the executable accessors hand the actual decoding and encoding to the
//! `byteorder` crate.

use byteorder::{ByteOrder, LittleEndian};
use vstd::prelude::*;

verus! {

/// The number that four bytes denote when the first byte is the least
/// significant one.
pub open spec fn le_u32(s: Seq<u8>) -> int
    recommends
        s.len() == 4,
{
    s[0] as int + 0x100 * s[1] as int + 0x1_0000 * s[2] as int + 0x100_0000 * s[3] as int
}

/// The number that eight bytes denote when the first byte is the least
/// significant one.
pub open spec fn le_u64(s: Seq<u8>) -> int
    recommends
        s.len() == 8,
{
    le_u32(s.subrange(0, 4)) + 0x1_0000_0000 * le_u32(s.subrange(4, 8))
}

/// The four bytes that denote `n`, least significant first.
pub open spec fn le_bytes_u32(n: u32) -> Seq<u8> {
    seq![
        (n as int % 0x100) as u8,
        (n as int / 0x100 % 0x100) as u8,
        (n as int / 0x1_0000 % 0x100) as u8,
        (n as int / 0x100_0000 % 0x100) as u8,
    ]
}

/// The eight bytes that denote `n`, least significant first.
pub open spec fn le_bytes_u64(n: u64) -> Seq<u8> {
    le_bytes_u32((n as int % 0x1_0000_0000) as u32) + le_bytes_u32(
        (n as int / 0x1_0000_0000) as u32,
    )
}

/// `s` with the bytes from `at` on replaced by `patch`, as far as `patch` reaches.
pub open spec fn overwrite(s: Seq<u8>, at: int, patch: Seq<u8>) -> Seq<u8>
    recommends
        0 <= at,
        at + patch.len() <= s.len(),
{
    s.subrange(0, at) + patch + s.subrange(at + patch.len(), s.len() as int)
}

/// Decoding is bounded by the width of the field.
pub proof fn lemma_le_u32_range(s: Seq<u8>)
    ensures
        0 <= le_u32(s) <= u32::MAX,
{
}

/// Decoding is bounded by the width of the field.
pub proof fn lemma_le_u64_range(s: Seq<u8>)
    ensures
        0 <= le_u64(s) <= u64::MAX,
{
    lemma_le_u32_range(s.subrange(0, 4));
    lemma_le_u32_range(s.subrange(4, 8));
}

/// Encoding a number and decoding the bytes gives the number back.
pub proof fn lemma_le_u32_round_trip(n: u32)
    ensures
        le_bytes_u32(n).len() == 4,
        le_u32(le_bytes_u32(n)) == n,
{
}

/// Encoding a number and decoding the bytes gives the number back.
pub proof fn lemma_le_u64_round_trip(n: u64)
    ensures
        le_bytes_u64(n).len() == 8,
        le_u64(le_bytes_u64(n)) == n,
{
    let low = (n as int % 0x1_0000_0000) as u32;
    let high = (n as int / 0x1_0000_0000) as u32;
    lemma_le_u32_round_trip(low);
    lemma_le_u32_round_trip(high);
    assert(le_bytes_u64(n).subrange(0, 4) =~= le_bytes_u32(low));
    assert(le_bytes_u64(n).subrange(4, 8) =~= le_bytes_u32(high));
}

/// Decoding four bytes and encoding the number gives the bytes back.
pub proof fn lemma_le_bytes_u32_of_value(s: Seq<u8>)
    requires
        s.len() == 4,
    ensures
        le_bytes_u32(le_u32(s) as u32) == s,
{
    let x0 = s[0] as int;
    let x1 = s[1] as int;
    let x2 = s[2] as int;
    let x3 = s[3] as int;
    let k1 = x1 + 0x100 * x2 + 0x1_0000 * x3;
    let k2 = x2 + 0x100 * x3;
    let v = le_u32(s);
    assert(v == x0 + 0x100 * k1);
    assert(v % 0x100 == x0 && v / 0x100 == k1);
    assert(k1 == x1 + 0x100 * k2);
    assert(k1 % 0x100 == x1 && k1 / 0x100 == k2);
    assert(v / 0x1_0000 == k2) by {
        assert(v == (x0 + 0x100 * x1) + 0x1_0000 * k2);
    }
    assert(k2 % 0x100 == x2 && k2 / 0x100 == x3);
    assert(v / 0x100_0000 == x3) by {
        assert(v == (x0 + 0x100 * x1 + 0x1_0000 * x2) + 0x100_0000 * x3);
    }
    assert(x3 % 0x100 == x3);
    assert(le_bytes_u32(v as u32) =~= s);
}

/// Two four-byte fields that denote the same number hold the same bytes.
pub proof fn lemma_le_u32_injective(a: Seq<u8>, b: Seq<u8>)
    requires
        a.len() == 4,
        b.len() == 4,
        le_u32(a) == le_u32(b),
    ensures
        a == b,
{
    lemma_le_bytes_u32_of_value(a);
    lemma_le_bytes_u32_of_value(b);
}

/// Two eight-byte fields that denote the same number hold the same bytes.
pub proof fn lemma_le_u64_injective(a: Seq<u8>, b: Seq<u8>)
    requires
        a.len() == 8,
        b.len() == 8,
        le_u64(a) == le_u64(b),
    ensures
        a == b,
{
    lemma_le_u32_range(a.subrange(0, 4));
    lemma_le_u32_range(b.subrange(0, 4));
    lemma_le_u32_injective(a.subrange(0, 4), b.subrange(0, 4));
    lemma_le_u32_injective(a.subrange(4, 8), b.subrange(4, 8));
    assert forall|i: int| 0 <= i < 8 implies a[i] == b[i] by {
        if i < 4 {
            assert(a[i] == a.subrange(0, 4)[i]);
            assert(b[i] == b.subrange(0, 4)[i]);
        } else {
            assert(a[i] == a.subrange(4, 8)[i - 4]);
            assert(b[i] == b.subrange(4, 8)[i - 4]);
        }
    }
    assert(a =~= b);
}

/// `byteorder::LittleEndian::read_u32` on the buffer from `at` on.
///
/// The crate decodes the first four bytes of the slice it is given, least
/// significant byte first, and panics on a shorter slice; the precondition
/// keeps the four bytes inside the buffer.
#[verifier::external_body]
pub(crate) fn read_u32_le(buf: &[u8], at: usize) -> (value: u32)
    requires
        at + 4 <= buf@.len(),
    ensures
        value == le_u32(buf@.subrange(at as int, at + 4)),
{
    LittleEndian::read_u32(&buf[at..])
}

/// `byteorder::LittleEndian::read_u64` on the buffer from `at` on.
///
/// The crate decodes the first eight bytes of the slice it is given, least
/// significant byte first, and panics on a shorter slice; the precondition
/// keeps the eight bytes inside the buffer.
#[verifier::external_body]
pub(crate) fn read_u64_le(buf: &[u8], at: usize) -> (value: u64)
    requires
        at + 8 <= buf@.len(),
    ensures
        value == le_u64(buf@.subrange(at as int, at + 8)),
{
    LittleEndian::read_u64(&buf[at..])
}

/// `byteorder::LittleEndian::write_u32` on the buffer from `at` on.
///
/// The crate stores the four bytes of `n`, least significant first, into the
/// start of the slice it is given and leaves the rest alone; it panics on a
/// slice shorter than four bytes, which the precondition excludes.
#[verifier::external_body]
pub(crate) fn write_u32_le(buf: &mut Vec<u8>, at: usize, n: u32)
    requires
        at + 4 <= old(buf)@.len(),
    ensures
        final(buf)@ == overwrite(old(buf)@, at as int, le_bytes_u32(n)),
{
    LittleEndian::write_u32(&mut buf[at..], n)
}

/// The 32-bit little-endian value at `at`, if the buffer reaches that far.
pub fn u32_at(buf: &[u8], at: usize) -> (value: Option<u32>)
    ensures
        value == (if at + 4 <= buf@.len() {
            Some(le_u32(buf@.subrange(at as int, at + 4)) as u32)
        } else {
            None
        }),
{
    if buf.len() >= 4 && at <= buf.len() - 4 {
        proof {
            lemma_le_u32_range(buf@.subrange(at as int, at + 4));
        }
        Some(read_u32_le(buf, at))
    } else {
        None
    }
}

/// The 64-bit little-endian value at `at`, if the buffer reaches that far.
pub fn u64_at(buf: &[u8], at: usize) -> (value: Option<u64>)
    ensures
        value == (if at + 8 <= buf@.len() {
            Some(le_u64(buf@.subrange(at as int, at + 8)) as u64)
        } else {
            None
        }),
{
    if buf.len() >= 8 && at <= buf.len() - 8 {
        proof {
            lemma_le_u64_range(buf@.subrange(at as int, at + 8));
        }
        Some(read_u64_le(buf, at))
    } else {
        None
    }
}

} // verus!
