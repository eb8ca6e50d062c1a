//! Fixed-width big-endian integer encodings used by the wire format:
//! the `u32` chunk-length prefix and the `u64` chunk counter.

use vstd::prelude::*;

verus! {

/// The four big-endian bytes of a 32-bit value.
pub open spec fn be32_of(x: u32) -> Seq<u8> {
    seq![(x >> 24) as u8, (x >> 16) as u8, (x >> 8) as u8, x as u8]
}

/// The value a 4-byte big-endian prefix denotes.
pub open spec fn be32_val(s: Seq<u8>) -> int
    recommends
        s.len() == 4,
{
    s[0] * 0x1000000 + s[1] * 0x10000 + s[2] * 0x100 + s[3]
}

/// The eight big-endian bytes of a 64-bit value.
pub open spec fn be64_of(x: u64) -> Seq<u8> {
    seq![
        (x >> 56) as u8,
        (x >> 48) as u8,
        (x >> 40) as u8,
        (x >> 32) as u8,
        (x >> 24) as u8,
        (x >> 16) as u8,
        (x >> 8) as u8,
        x as u8,
    ]
}

/// Reading back the four big-endian bytes of `x` yields `x`.
pub proof fn lemma_be32_roundtrip(x: u32)
    ensures
        be32_val(be32_of(x)) == x,
{
    assert(((x >> 24) as u8) as u32 as int == (x >> 24) as u8 as int) by (bit_vector);
    assert((((x >> 24) as u8) as u32) * 0x1000000 + (((x >> 16) as u8) as u32) * 0x10000 + (((x
        >> 8) as u8) as u32) * 0x100 + ((x as u8) as u32) == x) by (bit_vector);
}

/// The big-endian encoding of a 64-bit value is injective: equal byte
/// sequences come only from equal values.
pub proof fn lemma_be64_injective(x: u64, y: u64)
    requires
        be64_of(x) == be64_of(y),
    ensures
        x == y,
{
    assert(be64_of(x)[0] == be64_of(y)[0]);
    assert(be64_of(x)[1] == be64_of(y)[1]);
    assert(be64_of(x)[2] == be64_of(y)[2]);
    assert(be64_of(x)[3] == be64_of(y)[3]);
    assert(be64_of(x)[4] == be64_of(y)[4]);
    assert(be64_of(x)[5] == be64_of(y)[5]);
    assert(be64_of(x)[6] == be64_of(y)[6]);
    assert(be64_of(x)[7] == be64_of(y)[7]);
    assert(x == y) by (bit_vector)
        requires
            (x >> 56) as u8 == (y >> 56) as u8,
            (x >> 48) as u8 == (y >> 48) as u8,
            (x >> 40) as u8 == (y >> 40) as u8,
            (x >> 32) as u8 == (y >> 32) as u8,
            (x >> 24) as u8 == (y >> 24) as u8,
            (x >> 16) as u8 == (y >> 16) as u8,
            (x >> 8) as u8 == (y >> 8) as u8,
            x as u8 == y as u8,
    ;
}

/// Appends the four big-endian bytes of `x` to `out`.
pub fn push_be32(out: &mut Vec<u8>, x: u32)
    ensures
        final(out)@ == old(out)@ + be32_of(x),
{
    out.push((x >> 24) as u8);
    out.push((x >> 16) as u8);
    out.push((x >> 8) as u8);
    out.push(x as u8);
    proof {
        assert(out@ =~= old(out)@ + be32_of(x));
    }
}

/// Appends the eight big-endian bytes of `x` to `out`.
pub fn push_be64(out: &mut Vec<u8>, x: u64)
    ensures
        final(out)@ == old(out)@ + be64_of(x),
{
    out.push((x >> 56) as u8);
    out.push((x >> 48) as u8);
    out.push((x >> 40) as u8);
    out.push((x >> 32) as u8);
    out.push((x >> 24) as u8);
    out.push((x >> 16) as u8);
    out.push((x >> 8) as u8);
    out.push(x as u8);
    proof {
        assert(out@ =~= old(out)@ + be64_of(x));
    }
}

/// Reads the 4-byte big-endian value stored at `pos`.
pub fn read_be32(src: &Vec<u8>, pos: usize) -> (r: u32)
    requires
        pos + 4 <= src@.len(),
    ensures
        r as int == be32_val(src@.subrange(pos as int, pos as int + 4)),
{
    proof {
        assert(pos + 4 <= src.len());
    }
    let b0 = src[pos];
    let b1 = src[pos + 1];
    let b2 = src[pos + 2];
    let b3 = src[pos + 3];
    let r: u32 = ((b0 as u32) << 24) | ((b1 as u32) << 16) | ((b2 as u32) << 8) | (b3 as u32);
    proof {
        let s = src@.subrange(pos as int, pos as int + 4);
        assert(s[0] == b0 && s[1] == b1 && s[2] == b2 && s[3] == b3);
        assert((((b0 as u32) << 24) | ((b1 as u32) << 16) | ((b2 as u32) << 8) | (b3 as u32))
            as int == (b0 as u32) * 0x1000000 + (b1 as u32) * 0x10000 + (b2 as u32) * 0x100 + (
        b3 as u32)) by (bit_vector);
    }
    r
}

} // verus!
