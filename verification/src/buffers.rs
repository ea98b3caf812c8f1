//! The byte containers of the `bytes` crate, as far as this library uses them.

use bytes::{Bytes, BytesMut};
use vstd::prelude::*;

verus! {

/// An immutable, cheaply cloned run of bytes.
#[verifier::external_type_specification]
#[verifier::external_body]
pub struct ExBytes(bytes::Bytes);

/// A growable buffer that bytes are taken off the front of.
#[verifier::external_type_specification]
#[verifier::external_body]
pub struct ExBytesMut(bytes::BytesMut);

/// The bytes that a `Bytes` holds.
pub uninterp spec fn payload(b: Bytes) -> Seq<u8>;

/// The bytes that a `BytesMut` holds.
pub uninterp spec fn buffered(b: BytesMut) -> Seq<u8>;

/// The bytes of an optional payload.
pub open spec fn opt_payload(b: Option<Bytes>) -> Option<Seq<u8>> {
    match b {
        Some(b) => Some(payload(b)),
        None => None,
    }
}

/// Calls `Bytes::copy_from_slice`: the result holds the bytes of the slice.
#[verifier::external_body]
pub(crate) fn copy_bytes(data: &[u8]) -> (r: Bytes)
    ensures
        payload(r) == data@,
{
    Bytes::copy_from_slice(data)
}

/// Calls `<Bytes as AsRef<[u8]>>::as_ref`: the bytes held, as a slice.
#[verifier::external_body]
pub(crate) fn bytes_slice(b: &Bytes) -> (r: &[u8])
    ensures
        r@ == payload(*b),
{
    b.as_ref()
}

/// Calls `<Bytes as Clone>::clone`: the clone holds the same bytes.
#[verifier::external_body]
pub(crate) fn share_bytes(b: &Bytes) -> (r: Bytes)
    ensures
        payload(r) == payload(*b),
{
    b.clone()
}

pub(crate) fn share_opt_bytes(b: &Option<Bytes>) -> (r: Option<Bytes>)
    ensures
        opt_payload(r) == opt_payload(*b),
{
    match b {
        Some(b) => Some(share_bytes(b)),
        None => None,
    }
}

/// Calls `<BytesMut as AsRef<[u8]>>::as_ref`: the bytes held, as a slice.
#[verifier::external_body]
pub(crate) fn buffer_slice(b: &BytesMut) -> (r: &[u8])
    ensures
        r@ == buffered(*b),
{
    b.as_ref()
}

/// Calls `BytesMut::split_to`: takes the first `at` bytes out of the buffer and
/// leaves the others in it. The call panics when there are fewer.
#[verifier::external_body]
pub(crate) fn split_front(b: &mut BytesMut, at: usize) -> (r: BytesMut)
    requires
        at <= buffered(*old(b)).len(),
    ensures
        buffered(r) == buffered(*old(b)).take(at as int),
        buffered(*final(b)) == buffered(*old(b)).skip(at as int),
{
    b.split_to(at)
}

/// Calls `BytesMut::extend_from_slice`: appends the bytes of the slice.
#[verifier::external_body]
pub(crate) fn extend_buffer(b: &mut BytesMut, data: &[u8])
    ensures
        buffered(*final(b)) == buffered(*old(b)) + data@,
{
    b.extend_from_slice(data)
}

} // verus!
