//! The octet cursor: a `bytes::Bytes` value is a view over a contiguous octet
//! buffer that is consumed from the front. This module gives that buffer a
//! mathematical contents, `bytes_view`, and wraps the handful of `bytes`
//! operations the codec uses in functions with contracts over it.

use bytes::{Buf, Bytes};
use vstd::prelude::*;

verus! {

#[verifier::external_type_specification]
#[verifier::external_body]
pub struct ExBytes(Bytes);

/// The octets held by a `Bytes` buffer, front first.
pub uninterp spec fn bytes_view(b: Bytes) -> Seq<u8>;

/// Relies on `Bytes::len`: the number of octets in the buffer.
#[verifier::external_body]
pub(crate) fn bytes_len(b: &Bytes) -> (r: usize)
    ensures
        r == bytes_view(*b).len(),
{
    b.len()
}

/// Relies on `<Bytes as AsRef<[u8]>>::as_ref`: a slice of all octets in the buffer.
#[verifier::external_body]
pub(crate) fn bytes_as_slice(b: &Bytes) -> (r: &[u8])
    ensures
        r@ == bytes_view(*b),
{
    b.as_ref()
}

/// Relies on `<Bytes as Buf>::advance`: drops the first `n` octets; panics if
/// `n` exceeds the buffer's length, which the precondition rules out.
#[verifier::external_body]
pub(crate) fn bytes_advance(b: &mut Bytes, n: usize)
    requires
        n <= bytes_view(*old(b)).len(),
    ensures
        bytes_view(*final(b)) == bytes_view(*old(b)).skip(n as int),
{
    b.advance(n)
}

/// Relies on `<Bytes as Buf>::copy_to_bytes` (`Bytes::split_to`): takes the
/// first `n` octets out of the buffer and returns them; panics if `n` exceeds
/// the buffer's length, which the precondition rules out.
#[verifier::external_body]
pub(crate) fn bytes_split_to(b: &mut Bytes, n: usize) -> (r: Bytes)
    requires
        n <= bytes_view(*old(b)).len(),
    ensures
        bytes_view(r) == bytes_view(*old(b)).take(n as int),
        bytes_view(*final(b)) == bytes_view(*old(b)).skip(n as int),
{
    b.copy_to_bytes(n)
}

/// Relies on `<Bytes as Clone>::clone`: a second handle onto the same octets.
#[verifier::external_body]
pub(crate) fn bytes_clone(b: &Bytes) -> (r: Bytes)
    ensures
        bytes_view(r) == bytes_view(*b),
{
    b.clone()
}

/// Relies on `<Bytes as From<Vec<u8>>>::from`: a buffer holding the vector's octets.
#[verifier::external_body]
pub(crate) fn bytes_from_vec(v: Vec<u8>) -> (r: Bytes)
    ensures
        bytes_view(r) == v@,
{
    Bytes::from(v)
}

} // verus!
