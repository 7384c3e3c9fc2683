//! The trusted boundary to the `bytes` crate.
//!
//! Instruction streams are immutable `bytes::Bytes` buffers and the shared
//! scratch buffer is a growable `bytes::BytesMut`. Verus sees both types as
//! opaque; `bytes_seq` and `bmut_seq` name the byte contents of each, and the
//! wrappers below state what the crate's own methods do to those contents.
//! Everything else in this crate is verified against these contracts.

use vstd::prelude::*;

use bytes::BufMut;
use bytes::Bytes;
use bytes::BytesMut;

verus! {

#[verifier::external_type_specification]
#[verifier::external_body]
pub struct ExBytes(Bytes);

#[verifier::external_type_specification]
#[verifier::external_body]
pub struct ExBytesMut(BytesMut);

/// The byte contents of an immutable `bytes::Bytes` buffer.
pub uninterp spec fn bytes_seq(b: Bytes) -> Seq<u8>;

/// The byte contents of a growable `bytes::BytesMut` buffer.
pub uninterp spec fn bmut_seq(b: BytesMut) -> Seq<u8>;

/// The byte contents of each segment of a library of instruction streams.
pub open spec fn segs(libs: Seq<Bytes>) -> Seq<Seq<u8>> {
    libs.map_values(|b: Bytes| bytes_seq(b))
}

/// Relies on `Bytes::len`: the length of the buffer.
#[verifier::external_body]
pub(crate) fn bytes_len(b: &Bytes) -> (r: usize)
    ensures
        r == bytes_seq(*b).len(),
{
    b.len()
}

/// Relies on `Bytes` dereferencing to `[u8]`: the byte at index `i`.
#[verifier::external_body]
pub(crate) fn bytes_at(b: &Bytes, i: usize) -> (r: u8)
    requires
        i < bytes_seq(*b).len(),
    ensures
        r == bytes_seq(*b)[i as int],
{
    b[i]
}

/// Relies on `BytesMut::with_capacity`: a new buffer holds no bytes.
#[verifier::external_body]
pub(crate) fn bmut_with_capacity(cap: usize) -> (r: BytesMut)
    ensures
        bmut_seq(r) == Seq::<u8>::empty(),
{
    BytesMut::with_capacity(cap)
}

/// Relies on `BytesMut::len`: the number of bytes in the buffer.
#[verifier::external_body]
pub(crate) fn bmut_len(b: &BytesMut) -> (r: usize)
    ensures
        r == bmut_seq(*b).len(),
{
    b.len()
}

/// Relies on `BytesMut` dereferencing to `[u8]`: the byte at index `i`.
#[verifier::external_body]
pub(crate) fn bmut_at(b: &BytesMut, i: usize) -> (r: u8)
    requires
        i < bmut_seq(*b).len(),
    ensures
        r == bmut_seq(*b)[i as int],
{
    b[i]
}

/// Relies on `BytesMut::truncate`: keeps the first `len` bytes and is a
/// no-op when the buffer is already at most `len` bytes long.
#[verifier::external_body]
pub(crate) fn bmut_truncate(b: &mut BytesMut, len: usize)
    ensures
        bmut_seq(*final(b)) == (if len <= bmut_seq(*old(b)).len() {
            bmut_seq(*old(b)).take(len as int)
        } else {
            bmut_seq(*old(b))
        }),
{
    b.truncate(len)
}

/// Relies on `BufMut::put_u8` on `BytesMut`: appends one byte, growing the
/// buffer as needed.
#[verifier::external_body]
pub(crate) fn bmut_put_u8(b: &mut BytesMut, v: u8)
    ensures
        bmut_seq(*final(b)) == bmut_seq(*old(b)).push(v),
{
    b.put_u8(v)
}

} // verus!
