//! Little-endian integer encodings used by every binary format of the crate.

use vstd::prelude::*;

verus! {

/// The four little-endian bytes of `x`.
pub open spec fn le_u32(x: u32) -> Seq<u8> {
    seq![(x & 0xff) as u8, ((x >> 8) & 0xff) as u8, ((x >> 16) & 0xff) as u8, ((x >> 24) & 0xff) as u8]
}

/// The eight little-endian bytes of `x`.
pub open spec fn le_u64(x: u64) -> Seq<u8> {
    seq![
        (x & 0xff) as u8,
        ((x >> 8) & 0xff) as u8,
        ((x >> 16) & 0xff) as u8,
        ((x >> 24) & 0xff) as u8,
        ((x >> 32) & 0xff) as u8,
        ((x >> 40) & 0xff) as u8,
        ((x >> 48) & 0xff) as u8,
        ((x >> 56) & 0xff) as u8,
    ]
}

/// The `u32` whose little-endian bytes are `b0..b3`.
pub open spec fn u32_of_bytes(b0: u8, b1: u8, b2: u8, b3: u8) -> u32 {
    (b0 as u32) | ((b1 as u32) << 8) | ((b2 as u32) << 16) | ((b3 as u32) << 24)
}

/// The `u64` whose little-endian bytes are `b0..b7`.
pub open spec fn u64_of_bytes(b0: u8, b1: u8, b2: u8, b3: u8, b4: u8, b5: u8, b6: u8, b7: u8) -> u64 {
    (b0 as u64) | ((b1 as u64) << 8) | ((b2 as u64) << 16) | ((b3 as u64) << 24) | ((b4 as u64)
        << 32) | ((b5 as u64) << 40) | ((b6 as u64) << 48) | ((b7 as u64) << 56)
}

/// The little-endian `u32` stored in `s` at `pos`.
pub open spec fn u32_le_at(s: Seq<u8>, pos: int) -> u32 {
    u32_of_bytes(s[pos], s[pos + 1], s[pos + 2], s[pos + 3])
}

/// The little-endian `u64` stored in `s` at `pos`.
pub open spec fn u64_le_at(s: Seq<u8>, pos: int) -> u64 {
    u64_of_bytes(
        s[pos],
        s[pos + 1],
        s[pos + 2],
        s[pos + 3],
        s[pos + 4],
        s[pos + 5],
        s[pos + 6],
        s[pos + 7],
    )
}

/// Decoding the little-endian bytes of a `u32` gives it back.
pub proof fn lemma_u32_round_trip(x: u32)
    ensures
        u32_of_bytes(le_u32(x)[0], le_u32(x)[1], le_u32(x)[2], le_u32(x)[3]) == x,
{
    let b0 = (x & 0xff) as u8;
    let b1 = ((x >> 8) & 0xff) as u8;
    let b2 = ((x >> 16) & 0xff) as u8;
    let b3 = ((x >> 24) & 0xff) as u8;
    assert(u32_of_bytes(b0, b1, b2, b3) == x) by (bit_vector)
        requires
            b0 == (x & 0xff) as u8,
            b1 == ((x >> 8) & 0xff) as u8,
            b2 == ((x >> 16) & 0xff) as u8,
            b3 == ((x >> 24) & 0xff) as u8,
    ;
}

/// Decoding the little-endian bytes of a `u64` gives it back.
pub proof fn lemma_u64_round_trip(x: u64)
    ensures
        u64_of_bytes(
            le_u64(x)[0],
            le_u64(x)[1],
            le_u64(x)[2],
            le_u64(x)[3],
            le_u64(x)[4],
            le_u64(x)[5],
            le_u64(x)[6],
            le_u64(x)[7],
        ) == x,
{
    let b0 = (x & 0xff) as u8;
    let b1 = ((x >> 8) & 0xff) as u8;
    let b2 = ((x >> 16) & 0xff) as u8;
    let b3 = ((x >> 24) & 0xff) as u8;
    let b4 = ((x >> 32) & 0xff) as u8;
    let b5 = ((x >> 40) & 0xff) as u8;
    let b6 = ((x >> 48) & 0xff) as u8;
    let b7 = ((x >> 56) & 0xff) as u8;
    assert(u64_of_bytes(b0, b1, b2, b3, b4, b5, b6, b7) == x) by (bit_vector)
        requires
            b0 == (x & 0xff) as u8,
            b1 == ((x >> 8) & 0xff) as u8,
            b2 == ((x >> 16) & 0xff) as u8,
            b3 == ((x >> 24) & 0xff) as u8,
            b4 == ((x >> 32) & 0xff) as u8,
            b5 == ((x >> 40) & 0xff) as u8,
            b6 == ((x >> 48) & 0xff) as u8,
            b7 == ((x >> 56) & 0xff) as u8,
    ;
}

/// Reading a `u32` where its encoding was written gives it back.
pub proof fn lemma_u32_le_at_encoding(a: Seq<u8>, x: u32, b: Seq<u8>)
    ensures
        u32_le_at(a + (le_u32(x) + b), a.len() as int) == x,
{
    let s = a + (le_u32(x) + b);
    let p = a.len() as int;
    assert(s[p] == le_u32(x)[0]);
    assert(s[p + 1] == le_u32(x)[1]);
    assert(s[p + 2] == le_u32(x)[2]);
    assert(s[p + 3] == le_u32(x)[3]);
    lemma_u32_round_trip(x);
}

/// Reading a `u64` where its encoding was written gives it back.
pub proof fn lemma_u64_le_at_encoding(a: Seq<u8>, x: u64, b: Seq<u8>)
    ensures
        u64_le_at(a + (le_u64(x) + b), a.len() as int) == x,
{
    let s = a + (le_u64(x) + b);
    let p = a.len() as int;
    assert(s[p] == le_u64(x)[0]);
    assert(s[p + 1] == le_u64(x)[1]);
    assert(s[p + 2] == le_u64(x)[2]);
    assert(s[p + 3] == le_u64(x)[3]);
    assert(s[p + 4] == le_u64(x)[4]);
    assert(s[p + 5] == le_u64(x)[5]);
    assert(s[p + 6] == le_u64(x)[6]);
    assert(s[p + 7] == le_u64(x)[7]);
    lemma_u64_round_trip(x);
}

/// Appends the little-endian bytes of `x`.
pub fn push_u32_le(buf: &mut Vec<u8>, x: u32)
    ensures
        final(buf)@ == old(buf)@ + le_u32(x),
{
    buf.push((x & 0xff) as u8);
    buf.push(((x >> 8) & 0xff) as u8);
    buf.push(((x >> 16) & 0xff) as u8);
    buf.push(((x >> 24) & 0xff) as u8);
    assert(buf@ =~= old(buf)@ + le_u32(x));
}

/// Appends the little-endian bytes of `x`.
pub fn push_u64_le(buf: &mut Vec<u8>, x: u64)
    ensures
        final(buf)@ == old(buf)@ + le_u64(x),
{
    buf.push((x & 0xff) as u8);
    buf.push(((x >> 8) & 0xff) as u8);
    buf.push(((x >> 16) & 0xff) as u8);
    buf.push(((x >> 24) & 0xff) as u8);
    buf.push(((x >> 32) & 0xff) as u8);
    buf.push(((x >> 40) & 0xff) as u8);
    buf.push(((x >> 48) & 0xff) as u8);
    buf.push(((x >> 56) & 0xff) as u8);
    assert(buf@ =~= old(buf)@ + le_u64(x));
}

/// Appends all of `bytes`.
pub fn push_all(buf: &mut Vec<u8>, bytes: &[u8])
    ensures
        final(buf)@ == old(buf)@ + bytes@,
{
    let mut i: usize = 0;
    while i < bytes.len()
        invariant
            i <= bytes.len(),
            buf@ == old(buf)@ + bytes@.subrange(0, i as int),
        decreases bytes.len() - i,
    {
        buf.push(bytes[i]);
        i = i + 1;
        assert(buf@ =~= old(buf)@ + bytes@.subrange(0, i as int));
    }
    assert(bytes@.subrange(0, bytes.len() as int) =~= bytes@);
}

/// The little-endian `u32` at `pos`.
pub fn read_u32_le_at(bytes: &[u8], pos: usize) -> (res: u32)
    requires
        pos + 4 <= bytes@.len(),
    ensures
        res == u32_le_at(bytes@, pos as int),
{
    (bytes[pos] as u32) | ((bytes[pos + 1] as u32) << 8) | ((bytes[pos + 2] as u32) << 16) | ((
    bytes[pos + 3] as u32) << 24)
}

/// The little-endian `u64` at `pos`.
pub fn read_u64_le_at(bytes: &[u8], pos: usize) -> (res: u64)
    requires
        pos + 8 <= bytes@.len(),
    ensures
        res == u64_le_at(bytes@, pos as int),
{
    (bytes[pos] as u64) | ((bytes[pos + 1] as u64) << 8) | ((bytes[pos + 2] as u64) << 16) | ((
    bytes[pos + 3] as u64) << 24) | ((bytes[pos + 4] as u64) << 32) | ((bytes[pos + 5] as u64)
        << 40) | ((bytes[pos + 6] as u64) << 48) | ((bytes[pos + 7] as u64) << 56)
}

} // verus!
