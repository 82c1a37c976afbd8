//! The byte regions that the buffer is made of: `bytes::Bytes` for a chunk
//! that arrived, `bytes::BytesMut` for a region that is being filled.
//!
//! Both types are opaque to the verifier. Their contents are named by
//! `bytes_seq` and `bytes_mut_seq`, and every function in this module states,
//! without proof, what the `bytes` crate does to those contents.

use bytes::Buf;
use bytes::BufMut;
use bytes::Bytes;
use bytes::BytesMut;
use std::io::IoSlice;
use vstd::prelude::*;

verus! {

/// `bytes::Bytes`, carried through verified code as an opaque value.
#[verifier::external_type_specification]
#[verifier::external_body]
pub struct ExBytes(bytes::Bytes);

/// `bytes::BytesMut`, carried through verified code as an opaque value.
#[verifier::external_type_specification]
#[verifier::external_body]
pub struct ExBytesMut(bytes::BytesMut);

/// `std::io::IoSlice`, the descriptor of one slice in a vectored write,
/// carried through verified code as an opaque value.
#[verifier::external_type_specification]
#[verifier::external_body]
pub struct ExIoSlice<'a>(std::io::IoSlice<'a>);

/// The bytes that a `Bytes` holds, first to last.
pub uninterp spec fn bytes_seq(b: Bytes) -> Seq<u8>;

/// The bytes written so far into a `BytesMut`, first to last.
pub uninterp spec fn bytes_mut_seq(b: BytesMut) -> Seq<u8>;

/// The bytes that an `IoSlice` describes, first to last.
pub uninterp spec fn io_slice_seq(s: IoSlice) -> Seq<u8>;

/// `Buf::remaining` on `Bytes`: the number of bytes held.
#[verifier::external_body]
pub(crate) fn chunk_remaining(b: &Bytes) -> (n: usize)
    ensures
        n == bytes_seq(*b).len(),
{
    b.remaining()
}

/// `Buf::chunk` on `Bytes`: the whole content as one slice, nothing copied.
#[verifier::external_body]
pub(crate) fn chunk_slice(b: &Bytes) -> (s: &[u8])
    ensures
        s@ == bytes_seq(*b),
{
    b.chunk()
}

/// `Buf::advance` on `Bytes`: drops the first `cnt` bytes. The crate panics
/// when `cnt` is more than the length, so that is required here.
#[verifier::external_body]
pub(crate) fn chunk_advance(b: &mut Bytes, cnt: usize)
    requires
        cnt <= bytes_seq(*old(b)).len(),
    ensures
        bytes_seq(*final(b)) == bytes_seq(*old(b)).skip(cnt as int),
{
    b.advance(cnt)
}

/// `Buf::copy_to_bytes` on `Bytes`, which is `Bytes::split_to`: the result
/// holds the first `len` bytes and shares their storage, the receiver keeps
/// the rest. The crate panics when `len` is more than the length.
#[verifier::external_body]
pub(crate) fn chunk_split(b: &mut Bytes, len: usize) -> (head: Bytes)
    requires
        len <= bytes_seq(*old(b)).len(),
    ensures
        bytes_seq(head) == bytes_seq(*old(b)).take(len as int),
        bytes_seq(*final(b)) == bytes_seq(*old(b)).skip(len as int),
{
    b.copy_to_bytes(len)
}

/// `Buf::chunks_vectored` on `Bytes`, handed the slots of `dst` from `at` on.
/// `Bytes` has the trait's own body for it: with no slot left, or no byte
/// held, it writes nothing and returns 0; otherwise it describes the whole
/// content in the first slot and returns 1. An `IoSlice` cannot describe
/// more than `u32::MAX` bytes on every platform, so longer content is left
/// out.
#[verifier::external_body]
pub(crate) fn chunk_vectored<'a>(b: &'a Bytes, dst: &mut [IoSlice<'a>], at: usize) -> (n: usize)
    requires
        at <= old(dst)@.len(),
        bytes_seq(*b).len() <= u32::MAX,
    ensures
        n <= 1,
        (n == 1) == (at < old(dst)@.len() && bytes_seq(*b).len() > 0),
        final(dst)@.len() == old(dst)@.len(),
        n == 1 ==> io_slice_seq(final(dst)@[at as int]) == bytes_seq(*b),
        forall|j: int|
            0 <= j < old(dst)@.len() && !(n == 1 && j == at) ==> final(dst)@[j] == old(dst)@[j],
{
    b.chunks_vectored(&mut dst[at..])
}

/// `BytesMut::with_capacity`: a region with nothing written into it yet.
/// No allocation can be larger than `isize::MAX` bytes, and the crate panics
/// when asked for one.
#[verifier::external_body]
pub(crate) fn region_with_capacity(capacity: usize) -> (region: BytesMut)
    requires
        capacity <= isize::MAX,
    ensures
        bytes_mut_seq(region) == Seq::<u8>::empty(),
{
    BytesMut::with_capacity(capacity)
}

/// `BufMut::put_slice` on `BytesMut`: appends `src`, growing the region as
/// needed. The region cannot grow past `isize::MAX` bytes.
#[verifier::external_body]
pub(crate) fn region_put(region: &mut BytesMut, src: &[u8])
    requires
        bytes_mut_seq(*old(region)).len() + src@.len() <= isize::MAX,
    ensures
        bytes_mut_seq(*final(region)) == bytes_mut_seq(*old(region)) + src@,
{
    region.put_slice(src)
}

/// `BytesMut::freeze`: the same bytes as an immutable, shareable `Bytes`.
#[verifier::external_body]
pub(crate) fn region_freeze(region: BytesMut) -> (b: Bytes)
    ensures
        bytes_seq(b) == bytes_mut_seq(region),
{
    region.freeze()
}

} // verus!
