//! The byte buffers of the `bytes` crate, as far as this library uses them.
//!
//! Verus knows nothing of what is inside a `BytesMut` or a `Bytes`. The two
//! functions [`buffered`] and [`frozen`] name their contents, and every
//! contract below is believed, not proved: each says of one method of `bytes`
//! what that crate documents.
use bytes::{Buf, BufMut, Bytes, BytesMut};
use vstd::prelude::*;

use crate::endian::be_value;

verus! {

/// A buffer of bytes that grows at its end and is cut at its front.
#[verifier::external_type_specification]
#[verifier::external_body]
pub struct ExBytesMut(BytesMut);

/// A buffer of bytes that no longer changes.
#[verifier::external_type_specification]
#[verifier::external_body]
pub struct ExBytes(Bytes);

/// The bytes that a growable buffer holds, front first.
pub uninterp spec fn buffered(buf: BytesMut) -> Seq<u8>;

/// The bytes that an immutable buffer holds, front first.
pub uninterp spec fn frozen(data: Bytes) -> Seq<u8>;

/// `BytesMut::split_to`: cuts the first `at` bytes off the buffer and returns
/// them; the buffer keeps the rest. It panics where the buffer is shorter.
pub assume_specification[ BytesMut::split_to ](buf: &mut BytesMut, at: usize) -> (head: BytesMut)
    requires
        at <= buffered(*old(buf)).len(),
    ensures
        buffered(head) == buffered(*old(buf)).take(at as int),
        buffered(*final(buf)) == buffered(*old(buf)).skip(at as int),
;

/// `BytesMut::freeze`: the same bytes, no longer writable.
pub assume_specification[ BytesMut::freeze ](buf: BytesMut) -> (data: Bytes)
    ensures
        frozen(data) == buffered(buf),
;

/// `BytesMut::extend_from_slice`: appends the slice to the buffer.
pub assume_specification[ BytesMut::extend_from_slice ](buf: &mut BytesMut, extend: &[u8])
    ensures
        buffered(*final(buf)) == buffered(*old(buf)) + extend@,
;

/// `BytesMut::new`: a buffer that holds no byte.
#[verifier::external_body]
pub(crate) fn empty_buffer() -> (buf: BytesMut)
    ensures
        buffered(buf) == Seq::<u8>::empty(),
{
    BytesMut::new()
}

/// `Buf::chunk` of a `BytesMut`: all of its bytes as one slice. Nothing is
/// consumed.
#[verifier::external_body]
pub(crate) fn chunk(buf: &BytesMut) -> (bytes: &[u8])
    ensures
        bytes@ == buffered(*buf),
{
    buf.chunk()
}

/// `Buf::get_u8` of a `BytesMut`: takes the first byte off the buffer. It
/// panics on an empty buffer.
#[verifier::external_body]
pub(crate) fn get_u8(buf: &mut BytesMut) -> (v: u8)
    requires
        buffered(*old(buf)).len() >= 1,
    ensures
        v == buffered(*old(buf))[0],
        buffered(*final(buf)) == buffered(*old(buf)).skip(1),
{
    buf.get_u8()
}

/// `Buf::get_u32` of a `BytesMut`: takes the first four bytes off the buffer
/// and reads them as a big-endian integer. It panics on fewer than four.
#[verifier::external_body]
pub(crate) fn get_u32(buf: &mut BytesMut) -> (v: u32)
    requires
        buffered(*old(buf)).len() >= 4,
    ensures
        v == be_value(buffered(*old(buf)).take(4)),
        buffered(*final(buf)) == buffered(*old(buf)).skip(4),
{
    buf.get_u32()
}

/// `Buf::get_u64` of a `BytesMut`: takes the first eight bytes off the
/// buffer and reads them as a big-endian integer. It panics on fewer than
/// eight.
#[verifier::external_body]
pub(crate) fn get_u64(buf: &mut BytesMut) -> (v: u64)
    requires
        buffered(*old(buf)).len() >= 8,
    ensures
        v == be_value(buffered(*old(buf)).take(8)),
        buffered(*final(buf)) == buffered(*old(buf)).skip(8),
{
    buf.get_u64()
}

/// `BufMut::put_u8` of a `BytesMut`: appends one byte; the buffer grows as
/// needed.
#[verifier::external_body]
pub(crate) fn put_u8(buf: &mut BytesMut, v: u8)
    ensures
        buffered(*final(buf)) == buffered(*old(buf)).push(v),
{
    buf.put_u8(v)
}

/// The bytes of a `Bytes` as a slice, through its `Deref`.
#[verifier::external_body]
pub(crate) fn as_slice(data: &Bytes) -> (bytes: &[u8])
    ensures
        bytes@ == frozen(*data),
{
    &data[..]
}

} // verus!
