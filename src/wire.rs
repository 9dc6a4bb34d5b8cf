//! Big-endian integer fields as they appear on the wire.

use vstd::prelude::*;

verus! {

/// `n` zero bytes.
pub open spec fn zeros(n: nat) -> Seq<u8> {
    Seq::new(n, |i: int| 0u8)
}

/// The two bytes of `x`, most significant first.
pub open spec fn u16_bytes(x: u16) -> Seq<u8> {
    seq![(x >> 8u16) as u8, x as u8]
}

/// The four bytes of `x`, most significant first.
pub open spec fn u32_bytes(x: u32) -> Seq<u8> {
    seq![(x >> 24u32) as u8, (x >> 16u32) as u8, (x >> 8u32) as u8, x as u8]
}

/// The four bytes of `x` in two's complement, most significant first.
pub open spec fn i32_bytes(x: i32) -> Seq<u8> {
    u32_bytes(x as u32)
}

/// The big-endian `u16` that starts at `at` in `b`.
pub open spec fn read_u16(b: Seq<u8>, at: int) -> u16 {
    ((b[at] as u16) << 8u16) | (b[at + 1] as u16)
}

/// The big-endian `u32` that starts at `at` in `b`.
pub open spec fn read_u32(b: Seq<u8>, at: int) -> u32 {
    ((b[at] as u32) << 24u32) | ((b[at + 1] as u32) << 16u32) | ((b[at + 2] as u32) << 8u32) | (
    b[at + 3] as u32)
}

/// The big-endian two's complement `i32` that starts at `at` in `b`.
pub open spec fn read_i32(b: Seq<u8>, at: int) -> i32 {
    read_u32(b, at) as i32
}

pub proof fn lemma_u16_round_trip(x: u16)
    ensures
        read_u16(u16_bytes(x), 0) == x,
{
    let b0 = (x >> 8u16) as u8;
    let b1 = x as u8;
    assert((((b0 as u16) << 8u16) | (b1 as u16)) == x) by (bit_vector)
        requires
            b0 == (x >> 8u16) as u8,
            b1 == x as u8,
    ;
}

pub proof fn lemma_u32_round_trip(x: u32)
    ensures
        read_u32(u32_bytes(x), 0) == x,
{
    let b0 = (x >> 24u32) as u8;
    let b1 = (x >> 16u32) as u8;
    let b2 = (x >> 8u32) as u8;
    let b3 = x as u8;
    assert((((b0 as u32) << 24u32) | ((b1 as u32) << 16u32) | ((b2 as u32) << 8u32) | (b3 as u32))
        == x) by (bit_vector)
        requires
            b0 == (x >> 24u32) as u8,
            b1 == (x >> 16u32) as u8,
            b2 == (x >> 8u32) as u8,
            b3 == x as u8,
    ;
}

pub proof fn lemma_i32_round_trip(x: i32)
    ensures
        read_i32(i32_bytes(x), 0) == x,
{
    let u = x as u32;
    lemma_u32_round_trip(u);
    assert((u as i32) == x) by (bit_vector)
        requires
            u == x as u32,
    ;
}

/// Reading four bytes that hold the encoding of `x` gives `x` back.
pub proof fn lemma_read_u32_at(b: Seq<u8>, at: int, x: u32)
    requires
        0 <= at,
        at + 4 <= b.len(),
        b.subrange(at, at + 4) == u32_bytes(x),
    ensures
        read_u32(b, at) == x,
{
    lemma_u32_round_trip(x);
    assert(b[at] == b.subrange(at, at + 4)[0]);
    assert(b[at + 1] == b.subrange(at, at + 4)[1]);
    assert(b[at + 2] == b.subrange(at, at + 4)[2]);
    assert(b[at + 3] == b.subrange(at, at + 4)[3]);
}

/// Reading two bytes that hold the encoding of `x` gives `x` back.
pub proof fn lemma_read_u16_at(b: Seq<u8>, at: int, x: u16)
    requires
        0 <= at,
        at + 2 <= b.len(),
        b.subrange(at, at + 2) == u16_bytes(x),
    ensures
        read_u16(b, at) == x,
{
    lemma_u16_round_trip(x);
    assert(b[at] == b.subrange(at, at + 2)[0]);
    assert(b[at + 1] == b.subrange(at, at + 2)[1]);
}

/// Reading four bytes that hold the encoding of `x` gives `x` back.
pub proof fn lemma_read_i32_at(b: Seq<u8>, at: int, x: i32)
    requires
        0 <= at,
        at + 4 <= b.len(),
        b.subrange(at, at + 4) == i32_bytes(x),
    ensures
        read_i32(b, at) == x,
{
    lemma_read_u32_at(b, at, x as u32);
    lemma_i32_round_trip(x);
}

/// The big-endian bytes of `x`.
pub fn u32_to_be(x: u32) -> (r: [u8; 4])
    ensures
        r@ == u32_bytes(x),
{
    let r = [(x >> 24u32) as u8, (x >> 16u32) as u8, (x >> 8u32) as u8, x as u8];
    assert(r@ =~= u32_bytes(x));
    r
}

/// The big-endian bytes of `x`.
pub fn u16_to_be(x: u16) -> (r: [u8; 2])
    ensures
        r@ == u16_bytes(x),
{
    let r = [(x >> 8u16) as u8, x as u8];
    assert(r@ =~= u16_bytes(x));
    r
}

/// The big-endian two's complement bytes of `x`.
pub fn i32_to_be(x: i32) -> (r: [u8; 4])
    ensures
        r@ == i32_bytes(x),
{
    u32_to_be(x as u32)
}

/// Reads the big-endian `u16` at `at`.
pub fn get_u16(b: &[u8], at: usize) -> (r: u16)
    requires
        at + 2 <= b@.len(),
    ensures
        r == read_u16(b@, at as int),
{
    ((b[at] as u16) << 8u16) | (b[at + 1] as u16)
}

/// Reads the big-endian two's complement `i32` at `at`.
pub fn get_i32(b: &[u8], at: usize) -> (r: i32)
    requires
        at + 4 <= b@.len(),
    ensures
        r == read_i32(b@, at as int),
{
    get_u32(b, at) as i32
}

/// Appends `src` to `out`.
pub fn append_bytes(out: &mut Vec<u8>, src: &[u8])
    ensures
        final(out)@ == old(out)@ + src@,
{
    let mut i: usize = 0;
    while i < src.len()
        invariant
            i <= src@.len(),
            out@ == old(out)@ + src@.take(i as int),
        decreases src@.len() - i,
    {
        out.push(src[i]);
        i = i + 1;
        assert(src@.take(i as int) =~= src@.take(i - 1) .push(src@[i - 1]));
    }
    assert(src@.take(i as int) =~= src@);
}

/// Appends `n` zero bytes to `out`.
pub fn append_zeros(out: &mut Vec<u8>, n: usize)
    ensures
        final(out)@ == old(out)@ + zeros(n as nat),
{
    let mut i: usize = 0;
    while i < n
        invariant
            i <= n,
            out@ == old(out)@ + zeros(i as nat),
        decreases n - i,
    {
        out.push(0u8);
        i = i + 1;
        assert(zeros(i as nat) =~= zeros((i - 1) as nat).push(0u8));
    }
}

/// The bytes of `b` from `start` up to `end`, copied.
pub fn copy_range(b: &[u8], start: usize, end: usize) -> (r: Vec<u8>)
    requires
        start <= end <= b@.len(),
    ensures
        r@ == b@.subrange(start as int, end as int),
{
    let mut r: Vec<u8> = Vec::new();
    let mut i: usize = start;
    while i < end
        invariant
            start <= i <= end,
            end <= b@.len(),
            r@ == b@.subrange(start as int, i as int),
        decreases end - i,
    {
        r.push(b[i]);
        i = i + 1;
        assert(r@ =~= b@.subrange(start as int, i as int));
    }
    r
}

/// Reads the big-endian `u32` at `at`.
pub fn get_u32(b: &[u8], at: usize) -> (r: u32)
    requires
        at + 4 <= b@.len(),
    ensures
        r == read_u32(b@, at as int),
{
    ((b[at] as u32) << 24u32) | ((b[at + 1] as u32) << 16u32) | ((b[at + 2] as u32) << 8u32) | (
    b[at + 3] as u32)
}

} // verus!
