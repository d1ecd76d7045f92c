//! Byte buffers of the `bytes` crate.

use bytes::{Bytes, BytesMut};
use vstd::prelude::*;

verus! {

/// `bytes::Bytes`, an immutable run of bytes.
#[verifier::external_type_specification]
#[verifier::external_body]
pub struct ExBytes(bytes::Bytes);

/// `bytes::BytesMut`, a growable run of bytes.
#[verifier::external_type_specification]
#[verifier::external_body]
pub struct ExBytesMut(bytes::BytesMut);

/// What a `Bytes` holds.
pub uninterp spec fn content(b: Bytes) -> Seq<u8>;

/// What a `BytesMut` holds.
pub uninterp spec fn buffered(b: BytesMut) -> Seq<u8>;

/// How many bytes a `BytesMut` was made to hold without growing.
pub uninterp spec fn room(b: BytesMut) -> nat;

/// `bytes::BytesMut::with_capacity`: an empty buffer made to hold `capacity`
/// bytes. Capacities beyond `isize::MAX` are refused by the allocator's rules.
pub assume_specification[ BytesMut::with_capacity ](capacity: usize) -> (r: BytesMut)
    requires
        capacity <= isize::MAX,
    ensures
        buffered(r) == Seq::<u8>::empty(),
        room(r) == capacity,
;

/// `bytes::BytesMut::extend_from_slice`: appends `extend`. It is stated for
/// writes within the room that the buffer was made with, where it never
/// reallocates.
pub assume_specification[ BytesMut::extend_from_slice ](buffer: &mut BytesMut, extend: &[u8])
    requires
        buffered(*old(buffer)).len() + extend@.len() <= room(*old(buffer)),
    ensures
        buffered(*final(buffer)) == buffered(*old(buffer)) + extend@,
        room(*final(buffer)) == room(*old(buffer)),
;

/// `bytes::BytesMut::freeze`: the same bytes, now immutable.
pub assume_specification[ BytesMut::freeze ](buffer: BytesMut) -> (r: Bytes)
    ensures
        content(r) == buffered(buffer),
;

/// `<bytes::Bytes as Clone>::clone`: the same bytes.
pub assume_specification[ <bytes::Bytes as Clone>::clone ](b: &bytes::Bytes) -> (r: bytes::Bytes)
    ensures
        content(r) == content(*b),
;

/// `<bytes::Bytes as AsRef<[u8]>>::as_ref`: the bytes held, as a slice.
#[verifier::external_body]
pub(crate) fn as_slice(b: &Bytes) -> (r: &[u8])
    ensures
        r@ == content(*b),
{
    b.as_ref()
}

/// `<bytes::Bytes as From<Vec<u8>>>::from`: a `Bytes` with the vector's bytes.
#[verifier::external_body]
pub(crate) fn bytes_from_vec(v: Vec<u8>) -> (r: Bytes)
    ensures
        content(r) == v@,
{
    Bytes::from(v)
}

} // verus!
