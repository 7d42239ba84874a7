//! Byte chunks: what `bytes::Bytes` and `bytes::BytesMut` hold, and the calls
//! into the `bytes` crate.
use bytes::{Bytes, BytesMut};
use vstd::prelude::*;

verus! {

/// `bytes::Bytes`, kept opaque.
#[verifier::external_type_specification]
#[verifier::external_body]
pub struct ExBytes(bytes::Bytes);

/// `bytes::BytesMut`, kept opaque.
#[verifier::external_type_specification]
#[verifier::external_body]
pub struct ExBytesMut(bytes::BytesMut);

/// The bytes that a chunk holds.
pub uninterp spec fn bytes_data(chunk: Bytes) -> Seq<u8>;

/// The bytes that a buffer holds.
pub uninterp spec fn buffer_data(buffer: BytesMut) -> Seq<u8>;

/// A length up to which a growing buffer never asks for more memory than one
/// allocation can have.
pub open spec fn fits_buffer(len: nat) -> bool {
    len <= isize::MAX / 2
}

/// The bytes of an optional chunk; none when there is no chunk.
pub open spec fn body_data(body: Option<Bytes>) -> Seq<u8> {
    match body {
        Some(chunk) => bytes_data(chunk),
        None => Seq::empty(),
    }
}

/// `bytes::Bytes::len` is the number of bytes held.
pub assume_specification[ Bytes::len ](chunk: &Bytes) -> (len: usize)
    ensures
        len == bytes_data(*chunk).len(),
;

/// `bytes::Bytes::is_empty` tells whether no byte is held.
pub assume_specification[ Bytes::is_empty ](chunk: &Bytes) -> (empty: bool)
    ensures
        empty == (bytes_data(*chunk).len() == 0),
;

/// `bytes::Bytes::clone` holds the same bytes.
pub assume_specification[ <Bytes as Clone>::clone ](chunk: &Bytes) -> (copy: Bytes)
    ensures
        bytes_data(copy) == bytes_data(*chunk),
;

/// `bytes::BytesMut::new` holds nothing.
pub assume_specification[ BytesMut::new ]() -> (buffer: BytesMut)
    ensures
        buffer_data(buffer) == Seq::<u8>::empty(),
;

/// `bytes::BytesMut::len` is the number of bytes held.
pub assume_specification[ BytesMut::len ](buffer: &BytesMut) -> (len: usize)
    ensures
        len == buffer_data(*buffer).len(),
;

/// `bytes::BytesMut::extend_from_slice` appends the slice.
pub assume_specification[ BytesMut::extend_from_slice ](buffer: &mut BytesMut, extend: &[u8])
    requires
        fits_buffer(buffer_data(*old(buffer)).len() + extend@.len()),
    ensures
        buffer_data(*final(buffer)) == buffer_data(*old(buffer)) + extend@,
;

/// `bytes::BytesMut::freeze` holds the same bytes.
pub assume_specification[ BytesMut::freeze ](buffer: BytesMut) -> (chunk: Bytes)
    ensures
        bytes_data(chunk) == buffer_data(buffer),
;

/// `bytes::Bytes` read as a slice through its `Deref`.
pub assume_specification<'a>[ <Bytes as std::ops::Deref>::deref ](chunk: &'a Bytes) -> (data:
    &'a [u8])
    ensures
        data@ == bytes_data(*chunk),
;

/// Moves a vector into a chunk with `bytes::Bytes::from`.
#[verifier::external_body]
pub(crate) fn chunk_from(data: Vec<u8>) -> (chunk: Bytes)
    ensures
        bytes_data(chunk) == data@,
{
    Bytes::from(data)
}

} // verus!
