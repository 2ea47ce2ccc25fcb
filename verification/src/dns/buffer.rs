//! The growable byte buffer that encoded messages are written to.
//!
//! The buffer is `bytes::BytesMut`. Verus does not look inside it: what it
//! holds is named by `buf_bytes`, and the functions below, which Verus
//! believes without proof, say what each call does to that sequence.

use bytes::BufMut;
use bytes::BytesMut;
use vstd::prelude::*;

verus! {

#[verifier::external_type_specification]
#[verifier::external_body]
pub struct ExBytesMut(bytes::BytesMut);

/// The bytes that a buffer holds, first written first.
pub uninterp spec fn buf_bytes(buf: BytesMut) -> Seq<u8>;

/// The two bytes of a 16-bit value, most significant first.
pub open spec fn be16(value: u16) -> Seq<u8> {
    seq![(value / 256) as u8, (value % 256) as u8]
}

/// `BytesMut::with_capacity`: the new buffer holds no bytes, whatever room
/// was asked for. The call panics where the room asked for is more than
/// `isize::MAX` bytes, which `requires` leaves out.
#[verifier::external_body]
pub(crate) fn with_capacity(capacity: usize) -> (buf: BytesMut)
    requires
        capacity <= isize::MAX,
    ensures
        buf_bytes(buf) == Seq::<u8>::empty(),
{
    BytesMut::with_capacity(capacity)
}

/// `BytesMut::new`: the new buffer holds no bytes.
#[verifier::external_body]
pub(crate) fn new() -> (buf: BytesMut)
    ensures
        buf_bytes(buf) == Seq::<u8>::empty(),
{
    BytesMut::new()
}

/// `BufMut::put_u8` on a `BytesMut`: one byte is appended. The buffer grows
/// as needed; it cannot grow beyond `isize::MAX` bytes.
#[verifier::external_body]
pub(crate) fn put_u8(buf: &mut BytesMut, value: u8)
    requires
        buf_bytes(*old(buf)).len() + 1 <= isize::MAX,
    ensures
        buf_bytes(*final(buf)) == buf_bytes(*old(buf)).push(value),
{
    buf.put_u8(value)
}

/// `BufMut::put_u16` on a `BytesMut`: the two bytes of the value are
/// appended in big-endian order. The buffer grows as needed; it cannot grow
/// beyond `isize::MAX` bytes.
#[verifier::external_body]
pub(crate) fn put_u16(buf: &mut BytesMut, value: u16)
    requires
        buf_bytes(*old(buf)).len() + 2 <= isize::MAX,
    ensures
        buf_bytes(*final(buf)) == buf_bytes(*old(buf)) + be16(value),
{
    buf.put_u16(value)
}

/// `BufMut::put_slice` on a `BytesMut`: the bytes of the slice are appended
/// in order. The buffer grows as needed; it cannot grow beyond `isize::MAX`
/// bytes.
#[verifier::external_body]
pub(crate) fn put_slice(buf: &mut BytesMut, src: &[u8])
    requires
        buf_bytes(*old(buf)).len() + src@.len() <= isize::MAX,
    ensures
        buf_bytes(*final(buf)) == buf_bytes(*old(buf)) + src@,
{
    buf.put_slice(src)
}

} // verus!
