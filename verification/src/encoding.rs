//! Big-endian encodings of the fixed-width integers that the wire formats
//! carry: the 32-bit frame length and the 64-bit session counter.
use vstd::prelude::*;

verus! {

/// The four big-endian bytes of `v`.
pub open spec fn be32_bytes(v: u32) -> Seq<u8> {
    seq![(v >> 24u32) as u8, (v >> 16u32) as u8, (v >> 8u32) as u8, v as u8]
}

/// The value of four big-endian bytes.
pub open spec fn be32_value(b0: u8, b1: u8, b2: u8, b3: u8) -> u32 {
    ((b0 as u32) << 24u32) | ((b1 as u32) << 16u32) | ((b2 as u32) << 8u32) | (b3 as u32)
}

/// The value of the first four bytes of `s`, read big-endian.
pub open spec fn be32_of(s: Seq<u8>) -> u32
    recommends
        s.len() >= 4,
{
    be32_value(s[0], s[1], s[2], s[3])
}

/// The eight big-endian bytes of `v`.
pub open spec fn be64_bytes(v: u64) -> Seq<u8> {
    seq![
        (v >> 56u64) as u8,
        (v >> 48u64) as u8,
        (v >> 40u64) as u8,
        (v >> 32u64) as u8,
        (v >> 24u64) as u8,
        (v >> 16u64) as u8,
        (v >> 8u64) as u8,
        v as u8,
    ]
}

/// The value of eight big-endian bytes.
pub open spec fn be64_value(b0: u8, b1: u8, b2: u8, b3: u8, b4: u8, b5: u8, b6: u8, b7: u8) -> u64 {
    ((b0 as u64) << 56u64) | ((b1 as u64) << 48u64) | ((b2 as u64) << 40u64) | ((b3 as u64) << 32u64)
        | ((b4 as u64) << 24u64) | ((b5 as u64) << 16u64) | ((b6 as u64) << 8u64) | (b7 as u64)
}

/// The value of the first eight bytes of `s`, read big-endian.
pub open spec fn be64_of(s: Seq<u8>) -> u64
    recommends
        s.len() >= 8,
{
    be64_value(s[0], s[1], s[2], s[3], s[4], s[5], s[6], s[7])
}

/// Reading back the bytes of a 32-bit value gives the value.
pub proof fn lemma_be32_value_of_bytes(v: u32)
    ensures
        be32_of(be32_bytes(v)) == v,
        be32_bytes(v).len() == 4,
{
    assert(be32_value((v >> 24u32) as u8, (v >> 16u32) as u8, (v >> 8u32) as u8, v as u8) == v)
        by (bit_vector);
}

/// Writing out the value of four bytes gives the bytes.
pub proof fn lemma_be32_bytes_of_value(s: Seq<u8>)
    requires
        s.len() == 4,
    ensures
        be32_bytes(be32_of(s)) == s,
{
    let (b0, b1, b2, b3) = (s[0], s[1], s[2], s[3]);
    let v = be32_value(b0, b1, b2, b3);
    assert((v >> 24u32) as u8 == b0 && (v >> 16u32) as u8 == b1 && (v >> 8u32) as u8 == b2
        && v as u8 == b3) by (bit_vector)
        requires
            v == be32_value(b0, b1, b2, b3),
    ;
    assert(be32_bytes(v) =~= s);
}

/// Reading back the bytes of a 64-bit value gives the value.
pub proof fn lemma_be64_value_of_bytes(v: u64)
    ensures
        be64_of(be64_bytes(v)) == v,
        be64_bytes(v).len() == 8,
{
    assert(be64_value(
        (v >> 56u64) as u8,
        (v >> 48u64) as u8,
        (v >> 40u64) as u8,
        (v >> 32u64) as u8,
        (v >> 24u64) as u8,
        (v >> 16u64) as u8,
        (v >> 8u64) as u8,
        v as u8,
    ) == v) by (bit_vector);
}

/// Writing out the value of eight bytes gives the bytes.
pub proof fn lemma_be64_bytes_of_value(s: Seq<u8>)
    requires
        s.len() == 8,
    ensures
        be64_bytes(be64_of(s)) == s,
{
    let (b0, b1, b2, b3, b4, b5, b6, b7) = (s[0], s[1], s[2], s[3], s[4], s[5], s[6], s[7]);
    let v = be64_value(b0, b1, b2, b3, b4, b5, b6, b7);
    assert((v >> 56u64) as u8 == b0 && (v >> 48u64) as u8 == b1 && (v >> 40u64) as u8 == b2
        && (v >> 32u64) as u8 == b3 && (v >> 24u64) as u8 == b4 && (v >> 16u64) as u8 == b5
        && (v >> 8u64) as u8 == b6 && v as u8 == b7) by (bit_vector)
        requires
            v == be64_value(b0, b1, b2, b3, b4, b5, b6, b7),
    ;
    assert(be64_bytes(v) =~= s);
}

/// The big-endian bytes of a 64-bit value.
pub fn u64_to_be_bytes(v: u64) -> (r: [u8; 8])
    ensures
        r@ == be64_bytes(v),
{
    let r: [u8; 8] = [
        (v >> 56u64) as u8,
        (v >> 48u64) as u8,
        (v >> 40u64) as u8,
        (v >> 32u64) as u8,
        (v >> 24u64) as u8,
        (v >> 16u64) as u8,
        (v >> 8u64) as u8,
        v as u8,
    ];
    assert(r@ =~= be64_bytes(v));
    r
}

/// The value of the first eight bytes of `b`, read big-endian.
pub fn u64_from_be_bytes(b: &[u8]) -> (r: u64)
    requires
        b@.len() >= 8,
    ensures
        r == be64_of(b@),
{
    ((b[0] as u64) << 56u64) | ((b[1] as u64) << 48u64) | ((b[2] as u64) << 40u64) | ((b[3] as u64)
        << 32u64) | ((b[4] as u64) << 24u64) | ((b[5] as u64) << 16u64) | ((b[6] as u64) << 8u64)
        | (b[7] as u64)
}

} // verus!
