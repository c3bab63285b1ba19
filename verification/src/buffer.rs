//! The byte buffers of the `bytes` crate, as far as this library writes
//! and reads them. Nothing in this file is proved: each contract restates
//! what the `bytes` crate documents of the call.

use bytes::{Buf, BufMut, Bytes, BytesMut};
use vstd::prelude::*;

verus! {

/// `bytes::BytesMut`, a growable buffer that is written at its end.
#[verifier::external_type_specification]
#[verifier::external_body]
pub struct ExBytesMut(bytes::BytesMut);

/// `bytes::Bytes`, a buffer that is read from its front.
#[verifier::external_type_specification]
#[verifier::external_body]
pub struct ExBytes(bytes::Bytes);

/// The bytes that a `BytesMut` holds, in the order in which they were written.
pub uninterp spec fn written(buf: BytesMut) -> Seq<u8>;

/// The bytes of a `Bytes` that have not been read yet, the next one first.
pub uninterp spec fn unread(buf: Bytes) -> Seq<u8>;

/// The two octets of a 16-bit value, least significant first.
pub open spec fn le16(n: u16) -> Seq<u8> {
    seq![(n % 256) as u8, (n / 256) as u8]
}

/// The two octets of a 16-bit value, most significant first.
pub open spec fn be16(n: u16) -> Seq<u8> {
    seq![(n / 256) as u8, (n % 256) as u8]
}

/// `BytesMut::with_capacity`: the new buffer holds no bytes, whatever
/// room it was given.
#[verifier::external_body]
pub(crate) fn buffer_with_capacity(capacity: usize) -> (buf: BytesMut)
    ensures
        written(buf) == Seq::<u8>::empty(),
{
    BytesMut::with_capacity(capacity)
}

/// `BufMut::put_u8` on a `BytesMut`: the byte is appended; the buffer
/// grows where it has to.
#[verifier::external_body]
pub(crate) fn put_u8(buf: &mut BytesMut, n: u8)
    ensures
        written(*final(buf)) == written(*old(buf)).push(n),
{
    buf.put_u8(n)
}

/// `BufMut::put_u16_le` on a `BytesMut`: the two octets of `n` are
/// appended, the low one first.
#[verifier::external_body]
pub(crate) fn put_u16_le(buf: &mut BytesMut, n: u16)
    ensures
        written(*final(buf)) == written(*old(buf)) + le16(n),
{
    buf.put_u16_le(n)
}

/// `BufMut::put_u16` on a `BytesMut`: the two octets of `n` are appended,
/// the high one first.
#[verifier::external_body]
pub(crate) fn put_u16_be(buf: &mut BytesMut, n: u16)
    ensures
        written(*final(buf)) == written(*old(buf)) + be16(n),
{
    buf.put_u16(n)
}

/// `Buf::remaining` on a `Bytes`: the number of bytes not read yet.
#[verifier::external_body]
pub(crate) fn remaining(buf: &Bytes) -> (n: usize)
    ensures
        n == unread(*buf).len(),
{
    buf.remaining()
}

/// `Buf::get_u8` on a `Bytes`: hands out the next byte and moves past it.
/// The call panics on an empty buffer, which `requires` leaves out.
#[verifier::external_body]
pub(crate) fn get_u8(buf: &mut Bytes) -> (n: u8)
    requires
        unread(*old(buf)).len() >= 1,
    ensures
        n == unread(*old(buf))[0],
        unread(*final(buf)) == unread(*old(buf)).skip(1),
{
    buf.get_u8()
}

/// `Buf::get_u16_le` on a `Bytes`: reads the next two bytes as a 16-bit
/// value whose low octet comes first, and moves past them. The call
/// panics where fewer than two bytes are left, which `requires` leaves out.
#[verifier::external_body]
pub(crate) fn get_u16_le(buf: &mut Bytes) -> (n: u16)
    requires
        unread(*old(buf)).len() >= 2,
    ensures
        le16(n) == unread(*old(buf)).take(2),
        unread(*final(buf)) == unread(*old(buf)).skip(2),
{
    buf.get_u16_le()
}

} // verus!
