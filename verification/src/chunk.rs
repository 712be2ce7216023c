//! Chunks of a response body: the shared buffers of the `bytes` crate.

use vstd::prelude::*;

verus! {

/// `bytes::Bytes`, a reference-counted stretch of bytes. Its inside is not
/// visible here; what it holds is spoken of through [`contents`].
#[verifier::external_type_specification]
#[verifier::external_body]
pub struct ExBytes(bytes::Bytes);

/// The bytes that a buffer holds, in order.
pub uninterp spec fn contents(buffer: bytes::Bytes) -> Seq<u8>;

/// `bytes::Bytes::new`: a new buffer holds nothing.
pub assume_specification[ bytes::Bytes::new ]() -> (buffer: bytes::Bytes)
    ensures
        contents(buffer) == Seq::<u8>::empty(),
;

/// `bytes::Bytes::len`: the number of bytes that the buffer holds.
pub assume_specification[ bytes::Bytes::len ](buffer: &bytes::Bytes) -> (len: usize)
    ensures
        len == contents(*buffer).len(),
;

/// `bytes::Bytes::split_off`: afterwards the buffer holds its first `at`
/// bytes and the returned one the rest. It panics where `at` is beyond the
/// length.
pub assume_specification[ bytes::Bytes::split_off ](buffer: &mut bytes::Bytes, at: usize) -> (rest:
    bytes::Bytes)
    requires
        at <= contents(*old(buffer)).len(),
    ensures
        contents(*final(buffer)) == contents(*old(buffer)).take(at as int),
        contents(rest) == contents(*old(buffer)).skip(at as int),
;

/// `AsRef<[u8]>` of `bytes::Bytes`: the slice is what the buffer holds.
pub assume_specification<'a>[ <bytes::Bytes as AsRef<[u8]>>::as_ref ](
    buffer: &'a bytes::Bytes,
) -> (slice: &'a [u8])
    ensures
        slice@ == contents(*buffer),
;

} // verus!
