//! The encode/decode contract: the two capabilities a TLV-capable type may
//! implement. Encoding is pinned to a per-type spec-level octet string;
//! decoding is pinned to a per-type spec-level decoder that says, for every
//! input, either which value comes out and how many octets it consumes, or
//! which error is returned.

use crate::buffer::bytes_view;
use crate::error::TlvError;
use bytes::Bytes;
use vstd::prelude::*;

verus! {

/// Encode data in TLV format.
///
/// The value is a TLV record, or part of one.
pub trait TlvEncode {
    /// The octet string this value encodes to. The default leaves it
    /// unspecified, so that an implementation produced outside the verifier
    /// (a code generator's, say) compiles as it stands; every type of this
    /// library overrides it.
    open spec fn encoding(&self) -> Seq<u8> {
        vstd::pervasive::arbitrary()
    }

    /// The size of the encoded data in bytes; always equal to the length of
    /// what `encode` returns.
    fn size(&self) -> (r: usize)
        requires
            self.encoding().len() <= usize::MAX,
        ensures
            r == self.encoding().len(),
    ;

    /// Encode the value as a TLV record or part of one.
    fn encode(&self) -> (r: Bytes)
        requires
            self.encoding().len() <= usize::MAX,
        ensures
            bytes_view(r) == self.encoding(),
    ;
}

/// Decode data in TLV format.
///
/// The value is a TLV record, or part of one.
pub trait TlvDecode: Sized {
    /// The mathematical image of a decoded value.
    type Repr;

    /// The image of this value. The default leaves it unspecified, so that
    /// an implementation produced outside the verifier compiles as it
    /// stands; every type of this library overrides it.
    open spec fn repr(&self) -> Self::Repr {
        vstd::pervasive::arbitrary()
    }

    /// What decoding takes from the front of `s`: the image of the value
    /// decoded and the count of octets consumed, or the error returned. The
    /// default claims nothing is ever decoded; every type of this library
    /// overrides it.
    open spec fn spec_decode(s: Seq<u8>) -> Result<(Self::Repr, int), TlvError> {
        Err(TlvError::UnexpectedEndOfStream)
    }

    /// Decode the value from the front of `bytes`, advancing the cursor past
    /// the octets consumed — never past the end of the buffer, however
    /// malformed its contents. The implementation may consume a part, or the
    /// whole, of the buffer; a caller that knows the intended length must
    /// first restrict `bytes` to that length, so that a nested decode cannot
    /// run past its own record's boundary.
    fn decode(bytes: &mut Bytes) -> (r: Result<Self, TlvError>)
        ensures
            (match Self::spec_decode(bytes_view(*old(bytes))) {
                Ok(p) => 0 <= p.1 <= bytes_view(*old(bytes)).len() && (r matches Ok(v) && v.repr()
                    == p.0 && bytes_view(*final(bytes)) == bytes_view(*old(bytes)).skip(p.1)),
                Err(e) => r matches Err(e2) && e2 == e,
            }),
    ;
}

} // verus!
