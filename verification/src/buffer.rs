//! The byte buffer that the framers read from and write to.
use bytes::BytesMut;
use vstd::prelude::*;

verus! {

/// `BytesMut` of the bytes crate: a growable buffer of bytes that can be
/// written at its end and taken from at its front. Nothing of its make-up
/// is known here; what it holds is named by `buffer_bytes`.
#[verifier::external_type_specification]
#[verifier::external_body]
pub struct ExBytesMut(bytes::BytesMut);

/// The bytes that a buffer holds, front first.
pub uninterp spec fn buffer_bytes(buf: BytesMut) -> Seq<u8>;

/// `BytesMut::extend_from_slice`: grows the buffer as needed and appends
/// `data` behind what it holds. The reservation inside it panics where the new
/// length does not fit `usize`, which the precondition rules out.
#[verifier::external_body]
pub(crate) fn buffer_extend(buf: &mut BytesMut, data: &[u8])
    requires
        buffer_bytes(*old(buf)).len() + data@.len() <= usize::MAX,
    ensures
        buffer_bytes(*final(buf)) == buffer_bytes(*old(buf)) + data@,
{
    buf.extend_from_slice(data)
}

/// `BytesMut`'s `Deref`: the bytes it holds, as a slice.
#[verifier::external_body]
pub(crate) fn buffer_as_slice(buf: &BytesMut) -> (s: &[u8])
    ensures
        s@ == buffer_bytes(*buf),
{
    &buf[..]
}

/// `BytesMut::advance`: drops the first `cnt` bytes and keeps the rest. It
/// panics where `cnt` is more than the buffer holds.
#[verifier::external_body]
pub(crate) fn buffer_advance(buf: &mut BytesMut, cnt: usize)
    requires
        cnt <= buffer_bytes(*old(buf)).len(),
    ensures
        buffer_bytes(*final(buf)) == buffer_bytes(*old(buf)).skip(cnt as int),
{
    buf.advance(cnt)
}

} // verus!
