//! The read-side byte buffer and the raw-frame type: `bytes::BytesMut`, an
//! outside growable byte buffer that splits off its front in O(1). Its
//! contents are modelled as a sequence of bytes; each operation the channel
//! core uses is declared here with the contract the crate's source and
//! documentation show.

use vstd::prelude::*;

verus! {

#[verifier::external_type_specification]
#[verifier::external_body]
pub struct ExBytesMut(bytes::BytesMut);

/// The bytes a `BytesMut` holds, front first.
pub uninterp spec fn bytes_content(b: bytes::BytesMut) -> Seq<u8>;

/// Relies on bytes::BytesMut::new: a buffer of length zero.
#[verifier::external_body]
pub fn bm_new() -> (r: bytes::BytesMut)
    ensures
        bytes_content(r) == Seq::<u8>::empty(),
{
    bytes::BytesMut::new()
}

/// Relies on bytes::BytesMut::len: the number of bytes contained.
#[verifier::external_body]
pub fn bm_len(b: &bytes::BytesMut) -> (r: usize)
    ensures
        r == bytes_content(*b).len(),
{
    b.len()
}

/// Relies on bytes::BytesMut::extend_from_slice: appends the slice's bytes.
/// The length bound keeps the buffer's capacity within what its allocation
/// can reach on every platform, so the call cannot panic.
#[verifier::external_body]
pub fn bm_extend(b: &mut bytes::BytesMut, s: &Vec<u8>)
    requires
        bytes_content(*old(b)).len() + s@.len() <= 0x7fff_ffff,
    ensures
        bytes_content(*final(b)) == bytes_content(*old(b)) + s@,
{
    b.extend_from_slice(s.as_slice())
}

/// Relies on bytes::BytesMut::split_to: the result takes the first `at`
/// bytes, the buffer keeps the rest; panics only if `at` exceeds the length.
#[verifier::external_body]
pub fn bm_split_to(b: &mut bytes::BytesMut, at: usize) -> (r: bytes::BytesMut)
    requires
        at <= bytes_content(*old(b)).len(),
    ensures
        bytes_content(r) == bytes_content(*old(b)).take(at as int),
        bytes_content(*final(b)) == bytes_content(*old(b)).skip(at as int),
{
    b.split_to(at)
}

/// Relies on the index into the byte slice `BytesMut` dereferences to;
/// panics only if the index is out of bounds.
#[verifier::external_body]
pub fn bm_get(b: &bytes::BytesMut, i: usize) -> (r: u8)
    requires
        i < bytes_content(*b).len(),
    ensures
        r == bytes_content(*b)[i as int],
{
    b[i]
}

/// Relies on the byte slice `BytesMut` dereferences to: a copy of the
/// contents as an owned vector.
#[verifier::external_body]
pub fn bm_to_vec(b: &bytes::BytesMut) -> (r: Vec<u8>)
    ensures
        r@ == bytes_content(*b),
{
    b.to_vec()
}

} // verus!
