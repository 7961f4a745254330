//! The TLV record trait: an assigned type number, the payload size, and the
//! criticality rule that decides whether an unrecognized record may be
//! skipped. Also the verified header parse used when one whole record is read
//! from an incremental byte source.

use crate::buffer::{bytes_clone, bytes_len, bytes_view};
use crate::codec::TlvDecode;
use crate::error::TlvError;
use crate::varnum::{varnum_decode_spec, VarNum};
use bytes::Bytes;
use vstd::prelude::*;

verus! {

/// Whether a TLV record with type number `typ` is "critical": true if the
/// type is below 32 or odd. An unknown or out-of-order non-critical record
/// can be safely ignored, while a critical one must lead to an error.
pub open spec fn spec_tlv_typ_critical(typ: usize) -> bool {
    typ < 32 || typ % 2 == 1
}

/// Returns whether a TLV with a given type `typ` is "critical".
///
/// An unknown or out-of-order non-critical TLV can be safely ignored, while a
/// critical TLV must lead to an error.
pub fn tlv_typ_critical(typ: usize) -> (r: bool)
    ensures
        r == spec_tlv_typ_critical(typ),
{
    typ < 32 || typ % 2 == 1
}

/// A TLV record.
pub trait Tlv {
    /// The assigned type number for this TLV record, as the contracts speak
    /// of it. The default leaves it unspecified, so that an implementation
    /// produced outside the verifier compiles as it stands; an implementation
    /// meant for verified callers overrides it to the number `typ` returns.
    open spec fn spec_typ() -> usize {
        vstd::pervasive::arbitrary()
    }

    /// The assigned type number for this TLV record.
    fn typ() -> (r: usize)
        ensures
            r == Self::spec_typ(),
    ;

    /// The size of the payload contained within this TLV.
    ///
    /// Does not include the bytes used for type and length and should be
    /// equal to the length value in the packet.
    fn inner_size(&self) -> usize;

    /// Whether the TLV is critical, see [`tlv_critical`].
    fn critical() -> (r: bool)
        ensures
            r == spec_tlv_typ_critical(Self::spec_typ()),
    {
        tlv_typ_critical(Self::typ())
    }
}

/// Returns whether a TLV is "critical".
///
/// An unknown or out-of-order non-critical TLV can be safely ignored, while a
/// critical TLV must lead to an error.
pub fn tlv_critical<T: Tlv>() -> (r: bool)
    ensures
        r == spec_tlv_typ_critical(T::spec_typ()),
{
    tlv_typ_critical(T::typ())
}

/// What parsing a record header for `expected` takes from the front of `s`:
/// the octet count of the type and length fields together and the declared
/// payload length, or the error. A type number other than `expected` is
/// rejected before the length is even read.
pub open spec fn record_header_spec(s: Seq<u8>, expected: usize) -> Result<(int, u64), TlvError> {
    match varnum_decode_spec(s) {
        Err(e) => Err(e),
        Ok(t) => if t.0.value != expected as u64 {
            Err(TlvError::TypeMismatch { expected, found: t.0.value as usize })
        } else {
            match varnum_decode_spec(s.skip(t.1)) {
                Err(e) => Err(e),
                Ok(l) => Ok((t.1 + l.1, l.0.value)),
            }
        },
    }
}

/// Parses the type and length fields at the front of `probe` without
/// consuming it: checks that the type number is `expected` and returns the
/// octet count of the two header fields together with the declared payload
/// length. A caller reading one whole record from an incremental source
/// learns from these how many octets the record takes in all.
pub fn parse_record_header(probe: &Bytes, expected: usize) -> (r: Result<(usize, u64), TlvError>)
    ensures
        (match record_header_spec(bytes_view(*probe), expected) {
            Ok(h) => r matches Ok(h2) && h2.0 == h.0 && h2.1 == h.1,
            Err(e) => r matches Err(e2) && e2 == e,
        }),
{
    let total = bytes_len(probe);
    let mut cur: Bytes = bytes_clone(probe);
    let typ = match VarNum::decode(&mut cur) {
        Ok(t) => t,
        Err(e) => {
            return Err(e);
        },
    };
    let typ_size = total - bytes_len(&cur);
    if typ.value() != expected as u64 {
        return Err(TlvError::TypeMismatch { expected, found: typ.value() as usize });
    }
    let len = match VarNum::decode(&mut cur) {
        Ok(l) => l,
        Err(e) => {
            return Err(e);
        },
    };
    let len_size = total - typ_size - bytes_len(&cur);
    Ok((typ_size + len_size, len.value()))
}

} // verus!
