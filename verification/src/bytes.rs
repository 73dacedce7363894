//! Small verified helpers on byte vectors and little-endian integers.

use vstd::prelude::*;

verus! {

/// Structural equality of two byte vectors.
pub fn bytes_eq(a: &Vec<u8>, b: &Vec<u8>) -> (r: bool)
    ensures
        r == (a@ == b@),
{
    if a.len() != b.len() {
        proof {
            if a@ == b@ {
                assert(a@.len() == b@.len());
            }
        }
        return false;
    }
    let mut i: usize = 0;
    while i < a.len()
        invariant
            i <= a.len(),
            a@.len() == b@.len(),
            forall|j: int| 0 <= j < i ==> a@[j] == b@[j],
        decreases a.len() - i,
    {
        if a[i] != b[i] {
            proof {
                if a@ == b@ {
                    assert(a@[i as int] == b@[i as int]);
                }
            }
            return false;
        }
        i = i + 1;
    }
    proof {
        assert(a@ =~= b@);
    }
    true
}

/// A copy of a byte vector, with its contents pinned down.
pub fn clone_bytes(v: &Vec<u8>) -> (r: Vec<u8>)
    ensures
        r@ == v@,
{
    let mut r: Vec<u8> = Vec::new();
    let mut i: usize = 0;
    while i < v.len()
        invariant
            i <= v.len(),
            r@ == v@.subrange(0, i as int),
        decreases v.len() - i,
    {
        r.push(v[i]);
        proof {
            assert(r@ =~= v@.subrange(0, i + 1 as int));
        }
        i = i + 1;
    }
    proof {
        assert(r@ =~= v@);
    }
    r
}

/// The bytes of `s` from `from` (inclusive) to `to` (exclusive).
pub fn copy_range(s: &[u8], from: usize, to: usize) -> (r: Vec<u8>)
    requires
        from <= to <= s@.len(),
    ensures
        r@ == s@.subrange(from as int, to as int),
{
    let mut r: Vec<u8> = Vec::new();
    let mut i: usize = from;
    while i < to
        invariant
            from <= i <= to <= s@.len(),
            r@ == s@.subrange(from as int, i as int),
        decreases to - i,
    {
        r.push(s[i]);
        proof {
            assert(r@ =~= s@.subrange(from as int, i + 1 as int));
        }
        i = i + 1;
    }
    r
}

/// Appends the contents of `src` to `dst`.
pub fn push_bytes(dst: &mut Vec<u8>, src: &Vec<u8>)
    ensures
        final(dst)@ == old(dst)@ + src@,
{
    let mut i: usize = 0;
    while i < src.len()
        invariant
            i <= src.len(),
            dst@ == old(dst)@ + src@.subrange(0, i as int),
        decreases src.len() - i,
    {
        dst.push(src[i]);
        proof {
            assert(dst@ =~= old(dst)@ + src@.subrange(0, i + 1 as int));
        }
        i = i + 1;
    }
    proof {
        assert(src@.subrange(0, src@.len() as int) =~= src@);
    }
}

/// The little-endian encoding of a 32-bit integer.
pub open spec fn u32_le_bytes(x: u32) -> Seq<u8> {
    seq![
        (x & 0xff) as u8,
        ((x >> 8) & 0xff) as u8,
        ((x >> 16) & 0xff) as u8,
        ((x >> 24) & 0xff) as u8,
    ]
}

/// The 32-bit integer read from four little-endian bytes.
pub open spec fn u32_of_le(b0: u8, b1: u8, b2: u8, b3: u8) -> u32 {
    (b0 as u32) | ((b1 as u32) << 8) | ((b2 as u32) << 16) | ((b3 as u32) << 24)
}

pub fn u32_to_le(x: u32) -> (r: Vec<u8>)
    ensures
        r@ == u32_le_bytes(x),
        r@.len() == 4,
{
    let mut r: Vec<u8> = Vec::new();
    r.push((x & 0xff) as u8);
    r.push(((x >> 8) & 0xff) as u8);
    r.push(((x >> 16) & 0xff) as u8);
    r.push(((x >> 24) & 0xff) as u8);
    proof {
        assert(r@ =~= u32_le_bytes(x));
    }
    r
}

pub fn u32_from_le(b0: u8, b1: u8, b2: u8, b3: u8) -> (r: u32)
    ensures
        r == u32_of_le(b0, b1, b2, b3),
{
    (b0 as u32) | ((b1 as u32) << 8) | ((b2 as u32) << 16) | ((b3 as u32) << 24)
}

/// Reading back the four little-endian bytes of `x` yields `x`.
pub proof fn lemma_u32_le_round_trip(x: u32)
    ensures
        u32_of_le(
            u32_le_bytes(x)[0],
            u32_le_bytes(x)[1],
            u32_le_bytes(x)[2],
            u32_le_bytes(x)[3],
        ) == x,
{
    assert(((x & 0xff) as u8) as u32 | ((((x >> 8) & 0xff) as u8) as u32) << 8 | ((((x >> 16)
        & 0xff) as u8) as u32) << 16 | ((((x >> 24) & 0xff) as u8) as u32) << 24 == x)
        by (bit_vector);
}

/// The little-endian bytes of the integer read from four bytes are those bytes.
pub proof fn lemma_u32_le_round_trip_bytes(b0: u8, b1: u8, b2: u8, b3: u8)
    ensures
        u32_le_bytes(u32_of_le(b0, b1, b2, b3)) == seq![b0, b1, b2, b3],
{
    let x = u32_of_le(b0, b1, b2, b3);
    assert((((b0 as u32) | ((b1 as u32) << 8) | ((b2 as u32) << 16) | ((b3 as u32) << 24))
        & 0xff) as u8 == b0 && ((((b0 as u32) | ((b1 as u32) << 8) | ((b2 as u32) << 16) | ((
    b3 as u32) << 24)) >> 8) & 0xff) as u8 == b1 && ((((b0 as u32) | ((b1 as u32) << 8) | ((
    b2 as u32) << 16) | ((b3 as u32) << 24)) >> 16) & 0xff) as u8 == b2 && ((((b0 as u32) | ((
    b1 as u32) << 8) | ((b2 as u32) << 16) | ((b3 as u32) << 24)) >> 24) & 0xff) as u8 == b3)
        by (bit_vector);
    assert(u32_le_bytes(x) =~= seq![b0, b1, b2, b3]);
}

/// The little-endian encoding of a 128-bit integer, 16 bytes.
pub open spec fn u128_le_bytes(x: u128) -> Seq<u8> {
    Seq::new(16, |i: int| ((x >> (8 * i)) & 0xff) as u8)
}

/// The 128-bit integer read from 16 little-endian bytes.
pub open spec fn u128_of_le(s: Seq<u8>) -> u128
    recommends
        s.len() == 16,
    decreases s.len(),
{
    if s.len() == 0 {
        0u128
    } else {
        (s[0] as u128) | (u128_of_le(s.skip(1)) << 8)
    }
}

pub fn u128_from_le(s: &Vec<u8>) -> (r: u128)
    requires
        s@.len() == 16,
    ensures
        r == u128_of_le(s@),
{
    let mut r: u128 = 0;
    let mut i: usize = 16;
    while i > 0
        invariant
            i <= 16,
            s@.len() == 16,
            r == u128_of_le(s@.skip(i as int)),
        decreases i,
    {
        proof {
            let j = i - 1;
            assert(s@.skip(j).len() == 16 - j);
            assert(s@.skip(j)[0] == s@[j]);
            assert(s@.skip(j).skip(1) =~= s@.skip(i as int));
        }
        let b = s[i - 1];
        r = (b as u128) | (r << 8);
        i = i - 1;
    }
    proof {
        assert(s@.skip(0) =~= s@);
    }
    r
}

} // verus!
