//! The growable byte buffer of the `bytes` crate, as frames are written into
//! and read out of it.
use bytes::{Buf, BufMut, BytesMut};
use vstd::prelude::*;

use crate::encoding::{be32_bytes, be32_of};

verus! {

#[verifier::external_type_specification]
#[verifier::external_body]
pub struct ExBytesMut(BytesMut);

/// The bytes that a `BytesMut` holds, from its read position to its end.
pub uninterp spec fn bytes_mut_contents(b: BytesMut) -> Seq<u8>;

/// Wraps `BytesMut::with_capacity`: a new buffer holds no bytes.
#[verifier::external_body]
pub(crate) fn buf_with_capacity(capacity: usize) -> (b: BytesMut)
    ensures
        bytes_mut_contents(b) == Seq::<u8>::empty(),
{
    BytesMut::with_capacity(capacity)
}

/// Wraps `BufMut::put_u8` on `BytesMut`: appends one byte. The buffer grows
/// as needed; its length stays below `isize::MAX`, the allocation limit.
#[verifier::external_body]
pub(crate) fn buf_put_u8(b: &mut BytesMut, v: u8)
    requires
        bytes_mut_contents(*old(b)).len() + 1 <= isize::MAX,
    ensures
        bytes_mut_contents(*final(b)) == bytes_mut_contents(*old(b)).push(v),
{
    b.put_u8(v)
}

/// Wraps `BufMut::put_u32` on `BytesMut`: appends the four big-endian bytes of
/// `v`.
#[verifier::external_body]
pub(crate) fn buf_put_u32(b: &mut BytesMut, v: u32)
    requires
        bytes_mut_contents(*old(b)).len() + 4 <= isize::MAX,
    ensures
        bytes_mut_contents(*final(b)) == bytes_mut_contents(*old(b)) + be32_bytes(v),
{
    b.put_u32(v)
}

/// Wraps `BufMut::put_slice` on `BytesMut`: appends the bytes of `s`.
#[verifier::external_body]
pub(crate) fn buf_put_slice(b: &mut BytesMut, s: &[u8])
    requires
        bytes_mut_contents(*old(b)).len() + s@.len() <= isize::MAX,
    ensures
        bytes_mut_contents(*final(b)) == bytes_mut_contents(*old(b)) + s@,
{
    b.put_slice(s)
}

/// Wraps `Buf::remaining` on `BytesMut`: the number of bytes held.
#[verifier::external_body]
pub(crate) fn buf_remaining(b: &BytesMut) -> (n: usize)
    ensures
        n == bytes_mut_contents(*b).len(),
{
    b.remaining()
}

/// Wraps `Buf::get_u8` on `BytesMut`: takes the first byte off the buffer.
#[verifier::external_body]
pub(crate) fn buf_get_u8(b: &mut BytesMut) -> (v: u8)
    requires
        bytes_mut_contents(*old(b)).len() >= 1,
    ensures
        v == bytes_mut_contents(*old(b))[0],
        bytes_mut_contents(*final(b)) == bytes_mut_contents(*old(b)).skip(1),
{
    b.get_u8()
}

/// Wraps `Buf::get_u32` on `BytesMut`: takes the first four bytes off the
/// buffer and reads them big-endian.
#[verifier::external_body]
pub(crate) fn buf_get_u32(b: &mut BytesMut) -> (v: u32)
    requires
        bytes_mut_contents(*old(b)).len() >= 4,
    ensures
        v == be32_of(bytes_mut_contents(*old(b))),
        bytes_mut_contents(*final(b)) == bytes_mut_contents(*old(b)).skip(4),
{
    b.get_u32()
}

/// Wraps `Buf::copy_to_slice` on `BytesMut`, copying into a fresh vector of
/// `n` bytes: takes the first `n` bytes off the buffer.
#[verifier::external_body]
pub(crate) fn buf_take_vec(b: &mut BytesMut, n: usize) -> (v: Vec<u8>)
    requires
        bytes_mut_contents(*old(b)).len() >= n,
    ensures
        v@ == bytes_mut_contents(*old(b)).take(n as int),
        bytes_mut_contents(*final(b)) == bytes_mut_contents(*old(b)).skip(n as int),
{
    let mut v = vec![0u8; n];
    b.copy_to_slice(&mut v);
    v
}

} // verus!
