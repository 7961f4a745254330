//! The variable-length number used for TLV type and length fields: one octet
//! for values up to 0xFC, or a marker octet 0xFD/0xFE/0xFF followed by the
//! value in 2/4/8 big-endian octets. Encoding always picks the minimal of the
//! four widths; decoding accepts any width whose range covers the value.

use crate::buffer::{bytes_advance, bytes_as_slice, bytes_from_vec, bytes_len, bytes_view};
use crate::codec::{TlvDecode, TlvEncode};
use crate::error::TlvError;
use crate::octets::{be_bytes, be_val, lemma_be_bytes_val, lemma_be_val_bound, pow256, push_be,
    read_be};
use bytes::Bytes;
use vstd::prelude::*;

verus! {

/// A variable-length number as used by TLV encoded values.
#[derive(Debug, Clone, Copy, PartialEq, Eq, Hash, PartialOrd, Ord, Structural)]
pub struct VarNum {
    /// The value carried; the wire form is chosen from it alone.
    pub value: u64,
}

impl VarNum {
    /// Construct a new `VarNum` from a `u64`.
    pub fn new(value: u64) -> (r: Self)
        ensures
            r == (VarNum { value }),
    {
        VarNum { value }
    }

    /// The value in this `VarNum` as a `u64`.
    pub fn value(&self) -> (r: u64)
        ensures
            r == self.value,
    {
        self.value
    }
}

impl From<u8> for VarNum {
    fn from(value: u8) -> (r: Self) {
        VarNum { value: value as u64 }
    }
}

impl vstd::std_specs::convert::FromSpecImpl<u8> for VarNum {
    open spec fn obeys_from_spec() -> bool {
        true
    }

    open spec fn from_spec(value: u8) -> Self {
        VarNum { value: value as u64 }
    }
}

impl From<u16> for VarNum {
    fn from(value: u16) -> (r: Self) {
        VarNum { value: value as u64 }
    }
}

impl vstd::std_specs::convert::FromSpecImpl<u16> for VarNum {
    open spec fn obeys_from_spec() -> bool {
        true
    }

    open spec fn from_spec(value: u16) -> Self {
        VarNum { value: value as u64 }
    }
}

impl From<u32> for VarNum {
    fn from(value: u32) -> (r: Self) {
        VarNum { value: value as u64 }
    }
}

impl vstd::std_specs::convert::FromSpecImpl<u32> for VarNum {
    open spec fn obeys_from_spec() -> bool {
        true
    }

    open spec fn from_spec(value: u32) -> Self {
        VarNum { value: value as u64 }
    }
}

impl From<u64> for VarNum {
    fn from(value: u64) -> (r: Self) {
        VarNum { value }
    }
}

impl vstd::std_specs::convert::FromSpecImpl<u64> for VarNum {
    open spec fn obeys_from_spec() -> bool {
        true
    }

    open spec fn from_spec(value: u64) -> Self {
        VarNum { value }
    }
}

impl From<usize> for VarNum {
    fn from(value: usize) -> (r: Self) {
        VarNum { value: value as u64 }
    }
}

impl vstd::std_specs::convert::FromSpecImpl<usize> for VarNum {
    open spec fn obeys_from_spec() -> bool {
        true
    }

    open spec fn from_spec(value: usize) -> Self {
        VarNum { value: value as u64 }
    }
}

impl From<VarNum> for u64 {
    fn from(value: VarNum) -> (r: u64) {
        value.value
    }
}

impl vstd::std_specs::convert::FromSpecImpl<VarNum> for u64 {
    open spec fn obeys_from_spec() -> bool {
        true
    }

    open spec fn from_spec(value: VarNum) -> u64 {
        value.value
    }
}

impl From<VarNum> for usize {
    fn from(value: VarNum) -> (r: usize) {
        value.value as usize
    }
}

impl vstd::std_specs::convert::FromSpecImpl<VarNum> for usize {
    open spec fn obeys_from_spec() -> bool {
        true
    }

    open spec fn from_spec(value: VarNum) -> usize {
        value.value as usize
    }
}

impl From<isize> for VarNum {
    fn from(value: isize) -> (r: Self) {
        VarNum { value: value as u64 }
    }
}

impl vstd::std_specs::convert::FromSpecImpl<isize> for VarNum {
    open spec fn obeys_from_spec() -> bool {
        true
    }

    open spec fn from_spec(value: isize) -> Self {
        VarNum { value: value as u64 }
    }
}

impl From<i64> for VarNum {
    fn from(value: i64) -> (r: Self) {
        VarNum { value: value as u64 }
    }
}

impl vstd::std_specs::convert::FromSpecImpl<i64> for VarNum {
    open spec fn obeys_from_spec() -> bool {
        true
    }

    open spec fn from_spec(value: i64) -> Self {
        VarNum { value: value as u64 }
    }
}

impl From<i32> for VarNum {
    fn from(value: i32) -> (r: Self) {
        VarNum { value: value as u64 }
    }
}

impl vstd::std_specs::convert::FromSpecImpl<i32> for VarNum {
    open spec fn obeys_from_spec() -> bool {
        true
    }

    open spec fn from_spec(value: i32) -> Self {
        VarNum { value: value as u64 }
    }
}

impl From<i16> for VarNum {
    fn from(value: i16) -> (r: Self) {
        VarNum { value: value as u64 }
    }
}

impl vstd::std_specs::convert::FromSpecImpl<i16> for VarNum {
    open spec fn obeys_from_spec() -> bool {
        true
    }

    open spec fn from_spec(value: i16) -> Self {
        VarNum { value: value as u64 }
    }
}

impl From<i8> for VarNum {
    fn from(value: i8) -> (r: Self) {
        VarNum { value: value as u64 }
    }
}

impl vstd::std_specs::convert::FromSpecImpl<i8> for VarNum {
    open spec fn obeys_from_spec() -> bool {
        true
    }

    open spec fn from_spec(value: i8) -> Self {
        VarNum { value: value as u64 }
    }
}

impl From<VarNum> for u32 {
    fn from(value: VarNum) -> (r: u32) {
        value.value as u32
    }
}

impl vstd::std_specs::convert::FromSpecImpl<VarNum> for u32 {
    open spec fn obeys_from_spec() -> bool {
        true
    }

    open spec fn from_spec(value: VarNum) -> u32 {
        value.value as u32
    }
}

impl From<VarNum> for u16 {
    fn from(value: VarNum) -> (r: u16) {
        value.value as u16
    }
}

impl vstd::std_specs::convert::FromSpecImpl<VarNum> for u16 {
    open spec fn obeys_from_spec() -> bool {
        true
    }

    open spec fn from_spec(value: VarNum) -> u16 {
        value.value as u16
    }
}

impl From<VarNum> for u8 {
    fn from(value: VarNum) -> (r: u8) {
        value.value as u8
    }
}

impl vstd::std_specs::convert::FromSpecImpl<VarNum> for u8 {
    open spec fn obeys_from_spec() -> bool {
        true
    }

    open spec fn from_spec(value: VarNum) -> u8 {
        value.value as u8
    }
}

impl From<VarNum> for isize {
    fn from(value: VarNum) -> (r: isize) {
        value.value as isize
    }
}

impl vstd::std_specs::convert::FromSpecImpl<VarNum> for isize {
    open spec fn obeys_from_spec() -> bool {
        true
    }

    open spec fn from_spec(value: VarNum) -> isize {
        value.value as isize
    }
}

impl From<VarNum> for i64 {
    fn from(value: VarNum) -> (r: i64) {
        value.value as i64
    }
}

impl vstd::std_specs::convert::FromSpecImpl<VarNum> for i64 {
    open spec fn obeys_from_spec() -> bool {
        true
    }

    open spec fn from_spec(value: VarNum) -> i64 {
        value.value as i64
    }
}

impl From<VarNum> for i32 {
    fn from(value: VarNum) -> (r: i32) {
        value.value as i32
    }
}

impl vstd::std_specs::convert::FromSpecImpl<VarNum> for i32 {
    open spec fn obeys_from_spec() -> bool {
        true
    }

    open spec fn from_spec(value: VarNum) -> i32 {
        value.value as i32
    }
}

impl From<VarNum> for i16 {
    fn from(value: VarNum) -> (r: i16) {
        value.value as i16
    }
}

impl vstd::std_specs::convert::FromSpecImpl<VarNum> for i16 {
    open spec fn obeys_from_spec() -> bool {
        true
    }

    open spec fn from_spec(value: VarNum) -> i16 {
        value.value as i16
    }
}

impl From<VarNum> for i8 {
    fn from(value: VarNum) -> (r: i8) {
        value.value as i8
    }
}

impl vstd::std_specs::convert::FromSpecImpl<VarNum> for i8 {
    open spec fn obeys_from_spec() -> bool {
        true
    }

    open spec fn from_spec(value: VarNum) -> i8 {
        value.value as i8
    }
}

/// The number of octets the minimal wire form of `v` takes.
pub open spec fn varnum_min_size(v: u64) -> int {
    if v <= 0xFC {
        1
    } else if v <= 0xFFFF {
        3
    } else if v <= 0xFFFF_FFFF {
        5
    } else {
        9
    }
}

/// The wire form of `v` at a given total length `n` (1, 3, 5 or 9 octets);
/// faithful when the width's range covers `v`.
pub open spec fn varnum_encoding_with_len(v: u64, n: int) -> Seq<u8> {
    if n == 1 {
        seq![v as u8]
    } else if n == 3 {
        seq![0xFDu8] + be_bytes(v as nat, 2)
    } else if n == 5 {
        seq![0xFEu8] + be_bytes(v as nat, 4)
    } else {
        seq![0xFFu8] + be_bytes(v as nat, 8)
    }
}

/// The minimal wire form of `v`: what encoding produces.
pub open spec fn varnum_encoding(v: u64) -> Seq<u8> {
    varnum_encoding_with_len(v, varnum_min_size(v))
}

/// What decoding a `VarNum` takes from the front of `s`.
pub open spec fn varnum_decode_spec(s: Seq<u8>) -> Result<(VarNum, int), TlvError> {
    if s.len() == 0 {
        Err(TlvError::UnexpectedEndOfStream)
    } else if s[0] <= 0xFC {
        Ok((VarNum { value: s[0] as u64 }, 1))
    } else {
        let w: int = if s[0] == 0xFD {
            2
        } else if s[0] == 0xFE {
            4
        } else {
            8
        };
        if s.len() < 1 + w {
            Err(TlvError::UnexpectedEndOfStream)
        } else {
            Ok((VarNum { value: be_val(s.subrange(1, 1 + w)) as u64 }, 1 + w))
        }
    }
}

/// The minimal wire form is as long as the magnitude table says.
pub proof fn lemma_varnum_encoding_len(v: u64)
    ensures
        varnum_encoding(v).len() == varnum_min_size(v),
{
    reveal_with_fuel(pow256, 9);
    if v <= 0xFC {
    } else if v <= 0xFFFF {
        lemma_be_bytes_val(v as nat, 2);
    } else if v <= 0xFFFF_FFFF {
        lemma_be_bytes_val(v as nat, 4);
    } else {
        lemma_be_bytes_val(v as nat, 8);
    }
}

impl TlvEncode for VarNum {
    open spec fn encoding(&self) -> Seq<u8> {
        varnum_encoding(self.value)
    }

    fn size(&self) -> (r: usize) {
        proof {
            lemma_varnum_encoding_len(self.value);
        }
        if self.value <= 0xFC {
            1
        } else if self.value <= 0xFFFF {
            3
        } else if self.value <= 0xFFFF_FFFF {
            5
        } else {
            9
        }
    }

    fn encode(&self) -> (r: Bytes) {
        proof {
            reveal_with_fuel(pow256, 9);
        }
        let mut out: Vec<u8> = Vec::new();
        if self.value <= 0xFC {
            out.push(self.value as u8);
            proof {
                assert(out@ =~= varnum_encoding(self.value));
            }
        } else if self.value <= 0xFFFF {
            out.push(0xFD);
            push_be(&mut out, self.value, 2);
            proof {
                assert(out@ =~= varnum_encoding(self.value));
            }
        } else if self.value <= 0xFFFF_FFFF {
            out.push(0xFE);
            push_be(&mut out, self.value, 4);
            proof {
                assert(out@ =~= varnum_encoding(self.value));
            }
        } else {
            out.push(0xFF);
            push_be(&mut out, self.value, 8);
            proof {
                assert(out@ =~= varnum_encoding(self.value));
            }
        }
        bytes_from_vec(out)
    }
}

impl TlvDecode for VarNum {
    type Repr = VarNum;

    open spec fn repr(&self) -> VarNum {
        *self
    }

    open spec fn spec_decode(s: Seq<u8>) -> Result<(VarNum, int), TlvError> {
        varnum_decode_spec(s)
    }

    fn decode(bytes: &mut Bytes) -> (r: Result<Self, TlvError>) {
        let len = bytes_len(bytes);
        if len == 0 {
            return Err(TlvError::UnexpectedEndOfStream);
        }
        let first: u8 = {
            let s = bytes_as_slice(bytes);
            *vstd::slice::slice_index_get(s, 0)
        };
        if first <= 0xFC {
            bytes_advance(bytes, 1);
            return Ok(VarNum { value: first as u64 });
        }
        let w: usize = if first == 0xFD {
            2
        } else if first == 0xFE {
            4
        } else {
            8
        };
        if len < 1 + w {
            return Err(TlvError::UnexpectedEndOfStream);
        }
        let v: u64 = {
            let s = bytes_as_slice(bytes);
            read_be(vstd::slice::slice_subrange(s, 1, 1 + w))
        };
        proof {
            reveal_with_fuel(pow256, 9);
            lemma_be_val_bound(bytes_view(*bytes).subrange(1, 1 + w as int));
            crate::octets::lemma_pow256_mono(bytes_view(*bytes).subrange(
                1,
                1 + w as int,
            ).len() as nat, 8);
        }
        bytes_advance(bytes, 1 + w);
        Ok(VarNum { value: v })
    }
}

/// Decode tolerance: each of the four wire widths whose range covers `v`
/// decodes back to `v`, consuming exactly that width. The non-minimal widths
/// are accepted on purpose.
pub proof fn lemma_varnum_decode_tolerant(v: u64, n: int)
    requires
        (n == 1 && v <= 0xFC) || (n == 3 && v <= 0xFFFF) || (n == 5 && v <= 0xFFFF_FFFF) || n == 9,
    ensures
        varnum_decode_spec(varnum_encoding_with_len(v, n)) == Ok::<(VarNum, int), TlvError>(
            (VarNum { value: v }, n),
        ),
{
    reveal_with_fuel(pow256, 9);
    let s = varnum_encoding_with_len(v, n);
    if n == 1 {
        assert(s[0] == v as u8);
    } else {
        let w: int = (n - 1) as int;
        lemma_be_bytes_val(v as nat, w as nat);
        assert(s.len() == 1 + w);
        assert(s.subrange(1, 1 + w) =~= be_bytes(v as nat, w as nat));
    }
}

/// Round trip: decoding the encoding of `v` yields `v` back, consuming the
/// whole encoding, and the encoding is the minimal width that covers `v`:
/// no shorter of the four wire widths covers it.
pub proof fn lemma_varnum_round_trip(v: u64)
    ensures
        varnum_decode_spec(varnum_encoding(v)) == Ok::<(VarNum, int), TlvError>(
            (VarNum { value: v }, varnum_min_size(v)),
        ),
        varnum_encoding(v).len() == varnum_min_size(v),
        v <= 0xFC ==> varnum_min_size(v) <= 1,
        v <= 0xFFFF ==> varnum_min_size(v) <= 3,
        v <= 0xFFFF_FFFF ==> varnum_min_size(v) <= 5,
        varnum_min_size(v) <= 9,
{
    lemma_varnum_encoding_len(v);
    lemma_varnum_decode_tolerant(v, varnum_min_size(v));
}

/// Truncation: an empty buffer, or a marker octet followed by fewer octets
/// than the marker demands, fails with `UnexpectedEndOfStream`.
pub proof fn lemma_varnum_decode_truncated(s: Seq<u8>)
    requires
        s.len() == 0 || (s[0] > 0xFC && s.len() < 1 + (if s[0] == 0xFD {
            2int
        } else if s[0] == 0xFE {
            4int
        } else {
            8int
        })),
    ensures
        varnum_decode_spec(s) == Err::<(VarNum, int), TlvError>(TlvError::UnexpectedEndOfStream),
{
}

} // verus!
