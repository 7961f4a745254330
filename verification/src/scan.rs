//! The scan-ahead locator: advance a cursor to the next record of a wanted
//! type, skipping records that may be skipped. A record of another type is
//! skipped when it is non-critical (or when the caller asked to ignore
//! criticality), by reading its length and stepping over its payload; a
//! critical one stops a strict scan with `TypeMismatch`.

use crate::buffer::{bytes_advance, bytes_clone, bytes_len, bytes_view};
use crate::codec::TlvDecode;
use crate::error::TlvError;
use crate::tlv::{spec_tlv_typ_critical, tlv_typ_critical, Tlv};
use crate::varnum::{varnum_decode_spec, VarNum};
use bytes::Bytes;
use vstd::prelude::*;

verus! {

/// What scanning `s` for a record of type `typ` yields: the scan's outcome,
/// and the count of octets committed (the skipped records). On success the
/// committed octets end just before the matching record's own header; on
/// failure they end at the record that caused it.
pub open spec fn scan_spec(s: Seq<u8>, typ: usize, error_on_critical: bool) -> (Result<
    (),
    TlvError,
>, int)
    decreases s.len(),
{
    if s.len() == 0 {
        (Err(TlvError::UnexpectedEndOfStream), 0)
    } else {
        match varnum_decode_spec(s) {
            Err(e) => (Err(e), 0),
            Ok(t) => {
                if t.0.value == typ as u64 {
                    (Ok(()), 0)
                } else if error_on_critical && spec_tlv_typ_critical(t.0.value as usize) {
                    (Err(TlvError::TypeMismatch { expected: typ, found: t.0.value as usize }), 0)
                } else {
                    match varnum_decode_spec(s.skip(t.1)) {
                        Err(e) => (Err(e), 0),
                        Ok(l) => {
                            if t.1 + l.1 + l.0.value <= s.len() {
                                let step = t.1 + l.1 + l.0.value;
                                let rec = scan_spec(s.skip(step), typ, error_on_critical);
                                (rec.0, step + rec.1)
                            } else {
                                (Err(TlvError::UnexpectedEndOfStream), 0)
                            }
                        },
                    }
                }
            },
        }
    }
}

/// A scan commits no more octets than the buffer holds.
pub proof fn lemma_scan_spec_offset(s: Seq<u8>, typ: usize, error_on_critical: bool)
    ensures
        0 <= scan_spec(s, typ, error_on_critical).1 <= s.len(),
    decreases s.len(),
{
    if s.len() > 0 {
        match varnum_decode_spec(s) {
            Ok(t) => {
                if t.0.value == typ as u64 {
                } else if error_on_critical && spec_tlv_typ_critical(t.0.value as usize) {
                } else {
                    match varnum_decode_spec(s.skip(t.1)) {
                        Ok(l) => {
                            if t.1 + l.1 + l.0.value <= s.len() {
                                lemma_scan_spec_offset(
                                    s.skip(t.1 + l.1 + l.0.value),
                                    typ,
                                    error_on_critical,
                                );
                            }
                        },
                        Err(_) => {},
                    }
                }
            },
            Err(_) => {},
        }
    }
}

/// After a successful scan the committed octets are followed by a record
/// header whose type number is the wanted one.
pub proof fn lemma_scan_spec_found(s: Seq<u8>, typ: usize, error_on_critical: bool)
    ensures
        scan_spec(s, typ, error_on_critical).0 matches Ok(_) ==> (varnum_decode_spec(
            s.skip(scan_spec(s, typ, error_on_critical).1),
        ) matches Ok(t) && t.0.value == typ as u64),
    decreases s.len(),
{
    if s.len() > 0 {
        match varnum_decode_spec(s) {
            Ok(t) => {
                if t.0.value == typ as u64 {
                    assert(s.skip(0) =~= s);
                } else if error_on_critical && spec_tlv_typ_critical(t.0.value as usize) {
                } else {
                    match varnum_decode_spec(s.skip(t.1)) {
                        Ok(l) => {
                            if t.1 + l.1 + l.0.value <= s.len() {
                                let step = t.1 + l.1 + l.0.value;
                                lemma_scan_spec_offset(s.skip(step), typ, error_on_critical);
                                lemma_scan_spec_found(s.skip(step), typ, error_on_critical);
                                let rec = scan_spec(s.skip(step), typ, error_on_critical);
                                assert(s.skip(step).skip(rec.1) =~= s.skip(step + rec.1));
                            }
                        },
                        Err(_) => {},
                    }
                }
            },
            Err(_) => {},
        }
    }
}

/// Criticality gate, rejecting half: a strict scan that meets a record of a
/// different, critical type stops at once with `TypeMismatch` naming the
/// wanted and the found type.
pub proof fn lemma_scan_rejects_critical(s: Seq<u8>, typ: usize)
    requires
        varnum_decode_spec(s) matches Ok(t) && t.0.value != typ as u64 && spec_tlv_typ_critical(
            t.0.value as usize,
        ),
    ensures
        varnum_decode_spec(s) matches Ok(t) ==> scan_spec(s, typ, true) == (
        Err::<(), TlvError>(TlvError::TypeMismatch { expected: typ, found: t.0.value as usize }),
        0int,
        ),
{
}

/// Criticality gate, skipping half: a scan that meets a record of a
/// different, non-critical type whose whole span lies in the buffer steps
/// over it and continues behind it.
pub proof fn lemma_scan_skips_noncritical(s: Seq<u8>, typ: usize, error_on_critical: bool)
    requires
        varnum_decode_spec(s) matches Ok(t) && t.0.value != typ as u64 && !(error_on_critical
            && spec_tlv_typ_critical(t.0.value as usize)),
        varnum_decode_spec(s) matches Ok(t) && varnum_decode_spec(s.skip(t.1)) matches Ok(l) && t.1
            + l.1 + l.0.value <= s.len(),
    ensures
        varnum_decode_spec(s) matches Ok(t) && varnum_decode_spec(s.skip(t.1)) matches Ok(l)
            ==> scan_spec(s, typ, error_on_critical) == {
            let step = t.1 + l.1 + l.0.value;
            let rec = scan_spec(s.skip(step), typ, error_on_critical);
            (rec.0, step + rec.1)
        },
{
}

/// Advance `bytes` until a valid TLV record of type `T` is found.
///
/// If `error_on_critical` is true, any unexpected critical TLV records of a
/// different type will lead to an error. Unexpected non-critical TLV records
/// will always be ignored. On success the cursor stands just before the
/// matching record's own header; a record of another type whose declared
/// length runs past the buffer ends the scan with `UnexpectedEndOfStream`.
#[verifier::loop_isolation(false)]
pub fn find_tlv<T: Tlv>(bytes: &mut Bytes, error_on_critical: bool) -> (r: Result<(), TlvError>)
    ensures
        ({
            let sc = scan_spec(bytes_view(*old(bytes)), T::spec_typ(), error_on_critical);
            bytes_view(*final(bytes)) == bytes_view(*old(bytes)).skip(sc.1) && (match sc.0 {
                Ok(_) => r matches Ok(_) && (varnum_decode_spec(bytes_view(*final(bytes))) matches
                Ok(t) && t.0.value == T::spec_typ() as u64),
                Err(e) => r matches Err(e2) && e2 == e,
            })
        }),
{
    let ghost s0 = bytes_view(*bytes);
    let typ_num = T::typ();
    let mut cur: Bytes = bytes_clone(bytes);
    let ghost mut k: int = 0;
    proof {
        assert(s0.skip(0) =~= s0);
    }
    loop
        invariant
            0 <= k <= s0.len(),
            bytes_view(cur) == s0.skip(k),
            scan_spec(s0, T::spec_typ(), error_on_critical) == (
                scan_spec(s0.skip(k), T::spec_typ(), error_on_critical).0,
                k + scan_spec(s0.skip(k), T::spec_typ(), error_on_critical).1,
            ),
        decreases s0.len() - k,
    {
        if bytes_len(&cur) == 0 {
            *bytes = cur;
            return Err(TlvError::UnexpectedEndOfStream);
        }
        let before = bytes_len(&cur);
        let mut probe: Bytes = bytes_clone(&cur);
        let found = match VarNum::decode(&mut probe) {
            Ok(v) => v,
            Err(e) => {
                *bytes = cur;
                return Err(e);
            },
        };
        let t_consumed = before - bytes_len(&probe);
        if found.value() == typ_num as u64 {
            *bytes = cur;
            return Ok(());
        }
        if error_on_critical && tlv_typ_critical(found.value() as usize) {
            *bytes = cur;
            return Err(TlvError::TypeMismatch { expected: typ_num, found: found.value() as usize });
        }
        let length = match VarNum::decode(&mut probe) {
            Ok(v) => v,
            Err(e) => {
                *bytes = cur;
                return Err(e);
            },
        };
        let after_header = bytes_len(&probe);
        let l_consumed = before - t_consumed - after_header;
        if length.value() > after_header as u64 {
            *bytes = cur;
            return Err(TlvError::UnexpectedEndOfStream);
        }
        let step = t_consumed + l_consumed + (length.value() as usize);
        proof {
            assert(s0.skip(k).skip(step as int) =~= s0.skip(k + step));
        }
        bytes_advance(&mut cur, step);
        proof {
            k = k + step;
        }
    }
}

} // verus!
