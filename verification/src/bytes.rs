//! Big-endian integer fields of the USB/IP wire format.
//!
//! Every multi-byte integer on the wire is big-endian.  The spec functions
//! here say what the bytes of a field are; the executable functions read
//! and write such fields and are proved against them, including that the
//! two directions invert each other.

use vstd::prelude::*;

verus! {

/// The two big-endian bytes of a `u16`.
pub open spec fn be16_bytes(x: u16) -> Seq<u8> {
    seq![(x >> 8u16) as u8, x as u8]
}

/// The four big-endian bytes of a `u32`.
pub open spec fn be32_bytes(x: u32) -> Seq<u8> {
    seq![(x >> 24u32) as u8, (x >> 16u32) as u8, (x >> 8u32) as u8, x as u8]
}

/// The `u16` denoted by two big-endian bytes.
pub open spec fn u16_from_be(b0: u8, b1: u8) -> u16 {
    ((b0 as u16) << 8u16) | (b1 as u16)
}

/// The `u32` denoted by four big-endian bytes.
pub open spec fn u32_from_be(b0: u8, b1: u8, b2: u8, b3: u8) -> u32 {
    ((b0 as u32) << 24u32) | ((b1 as u32) << 16u32) | ((b2 as u32) << 8u32) | (b3 as u32)
}

/// The big-endian `u16` field starting at offset `i`.
pub open spec fn be16_at(b: Seq<u8>, i: int) -> u16 {
    u16_from_be(b[i], b[i + 1])
}

/// The big-endian `u32` field starting at offset `i`.
pub open spec fn be32_at(b: Seq<u8>, i: int) -> u32 {
    u32_from_be(b[i], b[i + 1], b[i + 2], b[i + 3])
}

/// Reading back the two bytes of a `u16` yields the value.
pub proof fn lemma_be16_roundtrip(x: u16)
    ensures
        u16_from_be(be16_bytes(x)[0], be16_bytes(x)[1]) == x,
{
    assert(((((x >> 8u16) as u8) as u16) << 8u16) | ((x as u8) as u16) == x) by (bit_vector);
}

/// Writing back the `u16` read from two bytes yields the bytes.
pub proof fn lemma_be16_bytes_of(b0: u8, b1: u8)
    ensures
        be16_bytes(u16_from_be(b0, b1)) =~= seq![b0, b1],
{
    let x = u16_from_be(b0, b1);
    assert(((((b0 as u16) << 8u16) | (b1 as u16)) >> 8u16) as u8 == b0) by (bit_vector);
    assert((((b0 as u16) << 8u16) | (b1 as u16)) as u8 == b1) by (bit_vector);
    assert(be16_bytes(x)[0] == b0);
    assert(be16_bytes(x)[1] == b1);
}

/// Reading back the four bytes of a `u32` yields the value.
pub proof fn lemma_be32_roundtrip(x: u32)
    ensures
        u32_from_be(be32_bytes(x)[0], be32_bytes(x)[1], be32_bytes(x)[2], be32_bytes(x)[3]) == x,
{
    assert(((((x >> 24u32) as u8) as u32) << 24u32) | ((((x >> 16u32) as u8) as u32) << 16u32)
        | ((((x >> 8u32) as u8) as u32) << 8u32) | ((x as u8) as u32) == x) by (bit_vector);
}

/// Writing back the `u32` read from four bytes yields the bytes.
pub proof fn lemma_be32_bytes_of(b0: u8, b1: u8, b2: u8, b3: u8)
    ensures
        be32_bytes(u32_from_be(b0, b1, b2, b3)) =~= seq![b0, b1, b2, b3],
{
    let x = u32_from_be(b0, b1, b2, b3);
    assert((((b0 as u32) << 24u32) | ((b1 as u32) << 16u32) | ((b2 as u32) << 8u32) | (b3 as u32))
        >> 24u32 == b0 as u32) by (bit_vector);
    assert(((((b0 as u32) << 24u32) | ((b1 as u32) << 16u32) | ((b2 as u32) << 8u32)
        | (b3 as u32)) >> 16u32) as u8 == b1) by (bit_vector);
    assert(((((b0 as u32) << 24u32) | ((b1 as u32) << 16u32) | ((b2 as u32) << 8u32)
        | (b3 as u32)) >> 8u32) as u8 == b2) by (bit_vector);
    assert((((b0 as u32) << 24u32) | ((b1 as u32) << 16u32) | ((b2 as u32) << 8u32)
        | (b3 as u32)) as u8 == b3) by (bit_vector);
    assert(be32_bytes(x)[0] == b0);
    assert(be32_bytes(x)[1] == b1);
    assert(be32_bytes(x)[2] == b2);
    assert(be32_bytes(x)[3] == b3);
}

/// Appends a `u16` to `v` as two big-endian bytes.
pub fn push_u16_be(v: &mut Vec<u8>, x: u16)
    ensures
        final(v)@ == old(v)@ + be16_bytes(x),
{
    v.push((x >> 8u16) as u8);
    v.push(x as u8);
    assert(v@ =~= old(v)@ + be16_bytes(x));
}

/// Appends a `u32` to `v` as four big-endian bytes.
pub fn push_u32_be(v: &mut Vec<u8>, x: u32)
    ensures
        final(v)@ == old(v)@ + be32_bytes(x),
{
    v.push((x >> 24u32) as u8);
    v.push((x >> 16u32) as u8);
    v.push((x >> 8u32) as u8);
    v.push(x as u8);
    assert(v@ =~= old(v)@ + be32_bytes(x));
}

/// Reads the big-endian `u16` field at offset `i`.
pub fn read_u16_be(b: &[u8], i: usize) -> (r: u16)
    requires
        i + 2 <= b@.len(),
    ensures
        r == be16_at(b@, i as int),
{
    ((b[i] as u16) << 8u16) | (b[i + 1] as u16)
}

/// Reads the big-endian `u32` field at offset `i`.
pub fn read_u32_be(b: &[u8], i: usize) -> (r: u32)
    requires
        i + 4 <= b@.len(),
    ensures
        r == be32_at(b@, i as int),
{
    ((b[i] as u32) << 24u32) | ((b[i + 1] as u32) << 16u32) | ((b[i + 2] as u32) << 8u32)
        | (b[i + 3] as u32)
}

} // verus!
