//! The growable byte buffer of the `bytes` crate, as the library sees it:
//! its contents are a sequence of bytes, and each operation used is stated
//! over that sequence.
use bytes::Buf;
use bytes::BytesMut;
use vstd::prelude::*;

verus! {

/// `bytes::BytesMut`, held opaque: what it holds is `buffer_bytes`.
#[verifier::external_type_specification]
#[verifier::external_body]
pub struct ExBytesMut(bytes::BytesMut);

/// The bytes a `BytesMut` holds, front first.
pub uninterp spec fn buffer_bytes(b: BytesMut) -> Seq<u8>;

/// Relies on `BytesMut::new`: a new buffer is empty.
#[verifier::external_body]
pub(crate) fn buffer_new() -> (r: BytesMut)
    ensures
        buffer_bytes(r) == Seq::<u8>::empty(),
{
    BytesMut::new()
}

/// Relies on `BytesMut::len`: the number of bytes held.
#[verifier::external_body]
pub(crate) fn buffer_len(b: &BytesMut) -> (r: usize)
    ensures
        r == buffer_bytes(*b).len(),
{
    b.len()
}

/// Relies on `AsRef<[u8]> for BytesMut`: a view of the bytes held.
#[verifier::external_body]
pub(crate) fn buffer_slice(b: &BytesMut) -> (r: &[u8])
    ensures
        r@ == buffer_bytes(*b),
{
    b.as_ref()
}

/// Relies on `BytesMut::extend_from_slice`: appends the slice at the back.
#[verifier::external_body]
pub(crate) fn buffer_extend(b: &mut BytesMut, s: &[u8])
    ensures
        buffer_bytes(*final(b)) == buffer_bytes(*old(b)) + s@,
{
    b.extend_from_slice(s)
}

/// Relies on `BytesMut::split_to`: removes the first `at` bytes and returns them.
/// It panics when `at` exceeds the length, which `requires` leaves out.
#[verifier::external_body]
pub(crate) fn buffer_split_to(b: &mut BytesMut, at: usize) -> (r: BytesMut)
    requires
        at <= buffer_bytes(*old(b)).len(),
    ensures
        buffer_bytes(r) == buffer_bytes(*old(b)).subrange(0, at as int),
        buffer_bytes(*final(b)) == buffer_bytes(*old(b)).subrange(at as int, buffer_bytes(*old(b)).len() as int),
{
    b.split_to(at)
}

/// Relies on `Buf::advance for BytesMut`: drops the first `n` bytes.
/// It panics when `n` exceeds the length, which `requires` leaves out.
#[verifier::external_body]
pub(crate) fn buffer_advance(b: &mut BytesMut, n: usize)
    requires
        n <= buffer_bytes(*old(b)).len(),
    ensures
        buffer_bytes(*final(b)) == buffer_bytes(*old(b)).subrange(n as int, buffer_bytes(*old(b)).len() as int),
{
    b.advance(n)
}

/// Relies on `BytesMut::truncate`: keeps the first `n` bytes (all of them when there are fewer).
#[verifier::external_body]
pub(crate) fn buffer_truncate(b: &mut BytesMut, n: usize)
    ensures
        n <= buffer_bytes(*old(b)).len() ==> buffer_bytes(*final(b)) == buffer_bytes(*old(b)).subrange(0, n as int),
        n > buffer_bytes(*old(b)).len() ==> buffer_bytes(*final(b)) == buffer_bytes(*old(b)),
{
    b.truncate(n)
}

} // verus!
