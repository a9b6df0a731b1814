//! Little-endian encodings of fixed-width integers, and small byte-vector
//! helpers shared by the wire codec.

use vstd::prelude::*;

verus! {

/// The eight bytes of `x`, least significant first.
pub open spec fn spec_u64_le(x: u64) -> Seq<u8> {
    seq![
        (x & 0xff) as u8,
        ((x >> 8) & 0xff) as u8,
        ((x >> 16) & 0xff) as u8,
        ((x >> 24) & 0xff) as u8,
        ((x >> 32) & 0xff) as u8,
        ((x >> 40) & 0xff) as u8,
        ((x >> 48) & 0xff) as u8,
        ((x >> 56) & 0xff) as u8,
    ]
}

/// The `u64` read from eight bytes, least significant first.
pub open spec fn spec_u64_from_le(b: Seq<u8>) -> u64
    recommends
        b.len() == 8,
{
    (b[0] as u64) | ((b[1] as u64) << 8) | ((b[2] as u64) << 16) | ((b[3] as u64) << 24) | ((
    b[4] as u64) << 32) | ((b[5] as u64) << 40) | ((b[6] as u64) << 48) | ((b[7] as u64) << 56)
}

/// Reading back the eight little-endian bytes of a `u64` yields the same value.
pub proof fn lemma_u64_le_roundtrip(x: u64)
    ensures
        spec_u64_from_le(spec_u64_le(x)) == x,
{
    let s = spec_u64_le(x);
    assert(s[0] == (x & 0xff) as u8);
    assert(s[1] == ((x >> 8) & 0xff) as u8);
    assert(s[2] == ((x >> 16) & 0xff) as u8);
    assert(s[3] == ((x >> 24) & 0xff) as u8);
    assert(s[4] == ((x >> 32) & 0xff) as u8);
    assert(s[5] == ((x >> 40) & 0xff) as u8);
    assert(s[6] == ((x >> 48) & 0xff) as u8);
    assert(s[7] == ((x >> 56) & 0xff) as u8);
    assert((((x & 0xff) as u8) as u64) | ((((x >> 8) & 0xff) as u8) as u64) << 8 | ((((x >> 16)
        & 0xff) as u8) as u64) << 16 | ((((x >> 24) & 0xff) as u8) as u64) << 24 | ((((x >> 32)
        & 0xff) as u8) as u64) << 32 | ((((x >> 40) & 0xff) as u8) as u64) << 40 | ((((x >> 48)
        & 0xff) as u8) as u64) << 48 | ((((x >> 56) & 0xff) as u8) as u64) << 56 == x)
        by (bit_vector);
}

/// Two values with the same little-endian bytes are the same value.
pub proof fn lemma_u64_le_injective(x: u64, y: u64)
    requires
        spec_u64_le(x) == spec_u64_le(y),
    ensures
        x == y,
{
    lemma_u64_le_roundtrip(x);
    lemma_u64_le_roundtrip(y);
    assert(spec_u64_from_le(spec_u64_le(x)) == spec_u64_from_le(spec_u64_le(y)));
}

/// Appends the eight little-endian bytes of `x` to `out`.
pub fn push_u64_le(out: &mut Vec<u8>, x: u64)
    ensures
        final(out)@ == old(out)@ + spec_u64_le(x),
{
    out.push((x & 0xff) as u8);
    out.push(((x >> 8) & 0xff) as u8);
    out.push(((x >> 16) & 0xff) as u8);
    out.push(((x >> 24) & 0xff) as u8);
    out.push(((x >> 32) & 0xff) as u8);
    out.push(((x >> 40) & 0xff) as u8);
    out.push(((x >> 48) & 0xff) as u8);
    out.push(((x >> 56) & 0xff) as u8);
    assert(out@ =~= old(out)@ + spec_u64_le(x));
}

/// Reads the `u64` whose little-endian bytes stand at `pos .. pos + 8` in `buf`.
pub fn read_u64_le(buf: &Vec<u8>, pos: usize) -> (r: u64)
    requires
        pos + 8 <= buf@.len(),
    ensures
        r == spec_u64_from_le(buf@.subrange(pos as int, pos as int + 8)),
{
    let n: usize = buf.len();
    assert(n == buf@.len());
    let b0: u64 = buf[pos] as u64;
    let b1: u64 = buf[pos + 1] as u64;
    let b2: u64 = buf[pos + 2] as u64;
    let b3: u64 = buf[pos + 3] as u64;
    let b4: u64 = buf[pos + 4] as u64;
    let b5: u64 = buf[pos + 5] as u64;
    let b6: u64 = buf[pos + 6] as u64;
    let b7: u64 = buf[pos + 7] as u64;
    proof {
        let s = buf@.subrange(pos as int, pos as int + 8);
        assert(s[0] == buf@[pos as int]);
        assert(s[1] == buf@[pos as int + 1]);
        assert(s[2] == buf@[pos as int + 2]);
        assert(s[3] == buf@[pos as int + 3]);
        assert(s[4] == buf@[pos as int + 4]);
        assert(s[5] == buf@[pos as int + 5]);
        assert(s[6] == buf@[pos as int + 6]);
        assert(s[7] == buf@[pos as int + 7]);
    }
    b0 | (b1 << 8) | (b2 << 16) | (b3 << 24) | (b4 << 32) | (b5 << 40) | (b6 << 48) | (b7 << 56)
}

/// Appends all of `src` to `dst`.
pub fn push_bytes(dst: &mut Vec<u8>, src: &Vec<u8>)
    ensures
        final(dst)@ == old(dst)@ + src@,
{
    let mut i: usize = 0;
    while i < src.len()
        invariant
            i <= src@.len(),
            dst@ == old(dst)@ + src@.subrange(0, i as int),
        decreases src@.len() - i,
    {
        dst.push(src[i]);
        i = i + 1;
        assert(dst@ =~= old(dst)@ + src@.subrange(0, i as int));
    }
    assert(dst@ =~= old(dst)@ + src@);
}

/// Copies `buf[pos .. pos + n]` into a fresh vector.
pub fn copy_range(buf: &Vec<u8>, pos: usize, n: usize) -> (r: Vec<u8>)
    requires
        pos + n <= buf@.len(),
    ensures
        r@ == buf@.subrange(pos as int, pos as int + n as int),
{
    let total: usize = buf.len();
    assert(total == buf@.len());
    let mut out: Vec<u8> = Vec::new();
    let mut i: usize = 0;
    while i < n
        invariant
            i <= n,
            pos + n <= total,
            total == buf@.len(),
            out@ == buf@.subrange(pos as int, pos as int + i as int),
        decreases n - i,
    {
        out.push(buf[pos + i]);
        i = i + 1;
        assert(out@ =~= buf@.subrange(pos as int, pos as int + i as int));
    }
    out
}

} // verus!
