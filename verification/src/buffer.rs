//! The byte buffer of the `bytes` crate, as the connection logic sees it.

use bytes::BytesMut;

use vstd::prelude::*;

verus! {

/// The growable byte buffer `bytes::BytesMut`.
#[verifier::external_type_specification]
#[verifier::external_body]
pub struct ExBytesMut(bytes::BytesMut);

/// The bytes that a buffer holds, from its first readable byte to its last.
pub uninterp spec fn contents(b: BytesMut) -> Seq<u8>;

/// Contract of `BytesMut::with_capacity`: the buffer holds nothing yet.  A
/// capacity beyond `isize::MAX` is refused with a panic, so it is left out.
pub assume_specification[ bytes::BytesMut::with_capacity ](capacity: usize) -> (b: BytesMut)
    requires
        capacity <= isize::MAX,
    ensures
        contents(b) == Seq::<u8>::empty(),
;

/// Contract of `BytesMut::len`: the number of bytes held.
pub assume_specification[ bytes::BytesMut::len ](b: &BytesMut) -> (n: usize)
    ensures
        n == contents(*b).len(),
;

/// Contract of `BytesMut::clear`: nothing is held afterwards.
pub assume_specification[ bytes::BytesMut::clear ](b: &mut BytesMut)
    ensures
        contents(*final(b)) == Seq::<u8>::empty(),
;

/// Contract of `BytesMut::extend_from_slice`: the bytes are appended.  A
/// buffer that grows allocates at most twice the room in front of and under
/// its bytes, so with a quarter of the largest allocation it never panics.
pub assume_specification[ bytes::BytesMut::extend_from_slice ](b: &mut BytesMut, extend: &[u8])
    requires
        contents(*old(b)).len() + extend@.len() <= isize::MAX / 4,
    ensures
        contents(*final(b)) == contents(*old(b)) + extend@,
;

/// Contract of `BytesMut::deref`: the bytes held, as a slice.
pub assume_specification[ <bytes::BytesMut as std::ops::Deref>::deref ](b: &BytesMut) -> (s:
    &[u8])
    ensures
        s@ == contents(*b),
;

} // verus!
