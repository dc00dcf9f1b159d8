//! Fixed-width integers in network byte order.

use vstd::prelude::*;
use vstd::slice::slice_subrange;

verus! {

/// The four bytes of `x`, most significant first.
#[verifier::opaque]
pub open spec fn be_u32(x: u32) -> Seq<u8> {
    seq![
        (x / 0x100_0000) as u8,
        (x / 0x1_0000 % 0x100) as u8,
        (x / 0x100 % 0x100) as u8,
        (x % 0x100) as u8,
    ]
}

/// The number whose big-endian bytes are the first four of `b`.
#[verifier::opaque]
pub open spec fn u32_of_be(b: Seq<u8>) -> u32
    recommends
        b.len() >= 4,
{
    (b[0] * 0x100_0000 + b[1] * 0x1_0000 + b[2] * 0x100 + b[3]) as u32
}

/// The eight bytes of `x`, most significant first.
#[verifier::opaque]
pub open spec fn be_u64(x: u64) -> Seq<u8> {
    be_u32((x / 0x1_0000_0000) as u32) + be_u32((x % 0x1_0000_0000) as u32)
}

/// The number whose big-endian bytes are the first eight of `b`.
#[verifier::opaque]
pub open spec fn u64_of_be(b: Seq<u8>) -> u64
    recommends
        b.len() >= 8,
{
    (u32_of_be(b.subrange(0, 4)) * 0x1_0000_0000 + u32_of_be(b.subrange(4, 8))) as u64
}

/// The unsigned number with the same 32 bits as `x` in two's complement.
pub open spec fn bits_of_i32(x: i32) -> u32 {
    if x >= 0 {
        x as u32
    } else {
        (x + 0x1_0000_0000) as u32
    }
}

/// The signed number with the same 32 bits as `u` in two's complement.
pub open spec fn i32_of_bits(u: u32) -> i32 {
    if u < 0x8000_0000 {
        u as i32
    } else {
        (u - 0x1_0000_0000) as i32
    }
}

/// The unsigned number with the same 64 bits as `x` in two's complement.
pub open spec fn bits_of_i64(x: i64) -> u64 {
    if x >= 0 {
        x as u64
    } else {
        (x + 0x1_0000_0000_0000_0000) as u64
    }
}

/// The signed number with the same 64 bits as `u` in two's complement.
pub open spec fn i64_of_bits(u: u64) -> i64 {
    if u < 0x8000_0000_0000_0000 {
        u as i64
    } else {
        (u - 0x1_0000_0000_0000_0000) as i64
    }
}

/// A 32-bit number takes four bytes.
pub broadcast proof fn lemma_be_u32_len(x: u32)
    ensures
        #[trigger] be_u32(x).len() == 4,
{
    reveal(be_u32);
}

/// A 64-bit number takes eight bytes.
pub broadcast proof fn lemma_be_u64_len(x: u64)
    ensures
        #[trigger] be_u64(x).len() == 8,
{
    reveal(be_u32);
    reveal(be_u64);
}

/// The sizes of the fixed-width encodings.
pub broadcast group group_be_len {
    lemma_be_u32_len,
    lemma_be_u64_len,
}

/// Reading back the bytes written for `x` gives `x`, whatever follows them.
pub proof fn lemma_u32_round_trip(x: u32, rest: Seq<u8>)
    ensures
        be_u32(x).len() == 4,
        u32_of_be(be_u32(x) + rest) == x,
{
    reveal(be_u32);
    reveal(u32_of_be);
    let b = be_u32(x) + rest;
    assert(b[0] == be_u32(x)[0]);
    assert(b[1] == be_u32(x)[1]);
    assert(b[2] == be_u32(x)[2]);
    assert(b[3] == be_u32(x)[3]);
}

/// The number that bytes spell depends on the first four of them alone.
pub proof fn lemma_u32_prefix(a: Seq<u8>, b: Seq<u8>)
    requires
        a.len() >= 4,
        b.len() >= 4,
        a.take(4) == b.take(4),
    ensures
        u32_of_be(a) == u32_of_be(b),
{
    reveal(u32_of_be);
    assert(a[0] == a.take(4)[0] && a[1] == a.take(4)[1] && a[2] == a.take(4)[2] && a[3] == a.take(
        4,
    )[3]);
    assert(b[0] == b.take(4)[0] && b[1] == b.take(4)[1] && b[2] == b.take(4)[2] && b[3] == b.take(
        4,
    )[3]);
}

/// The number that bytes spell depends on the first eight of them alone.
pub proof fn lemma_u64_prefix(a: Seq<u8>, b: Seq<u8>)
    requires
        a.len() >= 8,
        b.len() >= 8,
        a.take(8) == b.take(8),
    ensures
        u64_of_be(a) == u64_of_be(b),
{
    reveal(u64_of_be);
    assert(a.subrange(0, 4) =~= a.take(8).subrange(0, 4));
    assert(a.subrange(4, 8) =~= a.take(8).subrange(4, 8));
    assert(b.subrange(0, 4) =~= b.take(8).subrange(0, 4));
    assert(b.subrange(4, 8) =~= b.take(8).subrange(4, 8));
}

/// Reading back the bytes written for `x` gives `x`, whatever follows them.
pub proof fn lemma_u64_round_trip(x: u64, rest: Seq<u8>)
    ensures
        be_u64(x).len() == 8,
        u64_of_be(be_u64(x) + rest) == x,
{
    reveal(be_u64);
    reveal(u64_of_be);
    let hi = (x / 0x1_0000_0000) as u32;
    let lo = (x % 0x1_0000_0000) as u32;
    let b = be_u64(x) + rest;
    lemma_u32_round_trip(hi, Seq::empty());
    lemma_u32_round_trip(lo, Seq::empty());
    assert(b.subrange(0, 4) =~= be_u32(hi) + Seq::empty());
    assert(b.subrange(4, 8) =~= be_u32(lo) + Seq::empty());
}

/// Appends the big-endian bytes of `x` to `out`.
pub fn write_u32(out: &mut Vec<u8>, x: u32)
    ensures
        final(out)@ == old(out)@ + be_u32(x),
{
    out.push((x / 0x100_0000) as u8);
    out.push((x / 0x1_0000 % 0x100) as u8);
    out.push((x / 0x100 % 0x100) as u8);
    out.push((x % 0x100) as u8);
    proof {
        reveal(be_u32);
    }
    assert(out@ =~= old(out)@ + be_u32(x));
}

/// Appends the big-endian bytes of `x` to `out`.
pub fn write_u64(out: &mut Vec<u8>, x: u64)
    ensures
        final(out)@ == old(out)@ + be_u64(x),
{
    write_u32(out, (x / 0x1_0000_0000) as u32);
    write_u32(out, (x % 0x1_0000_0000) as u32);
    proof {
        reveal(be_u64);
    }
    assert(out@ =~= old(out)@ + be_u64(x));
}

/// Reads the number that the first four bytes of `b` spell, most significant
/// first.
pub fn read_u32(b: &[u8]) -> (x: u32)
    requires
        b@.len() >= 4,
    ensures
        x == u32_of_be(b@),
{
    proof {
        reveal(u32_of_be);
    }
    let b0: u32 = b[0] as u32;
    let b1: u32 = b[1] as u32;
    let b2: u32 = b[2] as u32;
    let b3: u32 = b[3] as u32;
    b0 * 0x100_0000 + b1 * 0x1_0000 + b2 * 0x100 + b3
}

/// Reads the number that the first eight bytes of `b` spell, most significant
/// first.
pub fn read_u64(b: &[u8]) -> (x: u64)
    requires
        b@.len() >= 8,
    ensures
        x == u64_of_be(b@),
{
    proof {
        reveal(u64_of_be);
    }
    let hi: u64 = read_u32(slice_subrange(b, 0, 4)) as u64;
    let lo: u64 = read_u32(slice_subrange(b, 4, 8)) as u64;
    hi * 0x1_0000_0000 + lo
}

/// Reinterprets a signed number as the unsigned number with the same bits.
pub fn i32_to_bits(x: i32) -> (u: u32)
    ensures
        u == bits_of_i32(x),
{
    if x >= 0 {
        x as u32
    } else {
        ((x as i64) + 0x1_0000_0000) as u32
    }
}

/// Reinterprets an unsigned number as the signed number with the same bits.
pub fn i32_from_bits(u: u32) -> (x: i32)
    ensures
        x == i32_of_bits(u),
{
    if u < 0x8000_0000 {
        u as i32
    } else {
        ((u as i64) - 0x1_0000_0000) as i32
    }
}

/// Reinterprets a signed number as the unsigned number with the same bits.
pub fn i64_to_bits(x: i64) -> (u: u64)
    ensures
        u == bits_of_i64(x),
{
    if x >= 0 {
        x as u64
    } else {
        ((x as i128) + 0x1_0000_0000_0000_0000) as u64
    }
}

/// Reinterprets an unsigned number as the signed number with the same bits.
pub fn i64_from_bits(u: u64) -> (x: i64)
    ensures
        x == i64_of_bits(u),
{
    if u < 0x8000_0000_0000_0000 {
        u as i64
    } else {
        ((u as i128) - 0x1_0000_0000_0000_0000) as i64
    }
}

} // verus!
