//! A non-negative integer carried in a TLV payload. It is not encoded with
//! `VarNum`: the wire form is the plain big-endian value in 1, 2, 4 or 8
//! octets, and decoding picks the variant from the octet count alone.

use crate::buffer::{bytes_advance, bytes_as_slice, bytes_from_vec, bytes_len, bytes_view};
use crate::codec::{TlvDecode, TlvEncode};
use crate::error::TlvError;
use crate::octets::{be_bytes, be_val, lemma_be_bytes_val, lemma_be_val_bound, pow256, push_be,
    read_be};
use bytes::Bytes;
use vstd::prelude::*;

verus! {

/// A non-negative integer, not encoded using `VarNum`.
#[derive(Debug, Clone, Copy, PartialEq, Eq, PartialOrd, Ord, Hash, Structural)]
pub enum NonNegativeInteger {
    /// An 8-bit integer.
    U8(u8),
    /// A 16-bit integer.
    U16(u16),
    /// A 32-bit integer.
    U32(u32),
    /// A 64-bit integer.
    U64(u64),
}

/// The value a `NonNegativeInteger` carries.
pub open spec fn nni_value(n: NonNegativeInteger) -> u64 {
    match n {
        NonNegativeInteger::U8(x) => x as u64,
        NonNegativeInteger::U16(x) => x as u64,
        NonNegativeInteger::U32(x) => x as u64,
        NonNegativeInteger::U64(x) => x,
    }
}

/// The number of octets a `NonNegativeInteger` encodes to.
pub open spec fn nni_width(n: NonNegativeInteger) -> int {
    match n {
        NonNegativeInteger::U8(_) => 1,
        NonNegativeInteger::U16(_) => 2,
        NonNegativeInteger::U32(_) => 4,
        NonNegativeInteger::U64(_) => 8,
    }
}

/// The smallest variant that holds `value`.
pub open spec fn nni_new_spec(value: u64) -> NonNegativeInteger {
    if value <= 0xFF {
        NonNegativeInteger::U8(value as u8)
    } else if value <= 0xFFFF {
        NonNegativeInteger::U16(value as u16)
    } else if value <= 0xFFFF_FFFF {
        NonNegativeInteger::U32(value as u32)
    } else {
        NonNegativeInteger::U64(value)
    }
}

/// What decoding a `NonNegativeInteger` takes from `s`: the whole buffer,
/// whose octet count must be exactly one of the four widths.
pub open spec fn nni_decode_spec(s: Seq<u8>) -> Result<(NonNegativeInteger, int), TlvError> {
    if s.len() == 1 {
        Ok((NonNegativeInteger::U8(s[0]), 1))
    } else if s.len() == 2 {
        Ok((NonNegativeInteger::U16(be_val(s) as u16), 2))
    } else if s.len() == 4 {
        Ok((NonNegativeInteger::U32(be_val(s) as u32), 4))
    } else if s.len() == 8 {
        Ok((NonNegativeInteger::U64(be_val(s) as u64), 8))
    } else {
        Err(TlvError::UnexpectedLength)
    }
}

impl NonNegativeInteger {
    /// Create a `NonNegativeInteger` using the smallest possible
    /// representation to fit the given value.
    pub fn new(value: u64) -> (r: Self)
        ensures
            r == nni_new_spec(value),
            nni_value(r) == value,
    {
        if value <= 0xFF {
            NonNegativeInteger::U8(value as u8)
        } else if value <= 0xFFFF {
            NonNegativeInteger::U16(value as u16)
        } else if value <= 0xFFFF_FFFF {
            NonNegativeInteger::U32(value as u32)
        } else {
            NonNegativeInteger::U64(value)
        }
    }

    /// Return the value of this `NonNegativeInteger` as u64.
    pub fn as_u64(&self) -> (r: u64)
        ensures
            r == nni_value(*self),
    {
        match *self {
            NonNegativeInteger::U8(value) => value as u64,
            NonNegativeInteger::U16(value) => value as u64,
            NonNegativeInteger::U32(value) => value as u64,
            NonNegativeInteger::U64(value) => value,
        }
    }

    /// Return the value of this `NonNegativeInteger` as usize.
    pub fn as_usize(&self) -> (r: usize)
        ensures
            r == nni_value(*self) as usize,
    {
        match *self {
            NonNegativeInteger::U8(value) => value as usize,
            NonNegativeInteger::U16(value) => value as usize,
            NonNegativeInteger::U32(value) => value as usize,
            NonNegativeInteger::U64(value) => value as usize,
        }
    }
}

impl From<u8> for NonNegativeInteger {
    fn from(value: u8) -> (r: Self) {
        NonNegativeInteger::new(value as u64)
    }
}

impl vstd::std_specs::convert::FromSpecImpl<u8> for NonNegativeInteger {
    open spec fn obeys_from_spec() -> bool {
        true
    }

    open spec fn from_spec(value: u8) -> Self {
        nni_new_spec(value as u64)
    }
}

impl From<u16> for NonNegativeInteger {
    fn from(value: u16) -> (r: Self) {
        NonNegativeInteger::new(value as u64)
    }
}

impl vstd::std_specs::convert::FromSpecImpl<u16> for NonNegativeInteger {
    open spec fn obeys_from_spec() -> bool {
        true
    }

    open spec fn from_spec(value: u16) -> Self {
        nni_new_spec(value as u64)
    }
}

impl From<u32> for NonNegativeInteger {
    fn from(value: u32) -> (r: Self) {
        NonNegativeInteger::new(value as u64)
    }
}

impl vstd::std_specs::convert::FromSpecImpl<u32> for NonNegativeInteger {
    open spec fn obeys_from_spec() -> bool {
        true
    }

    open spec fn from_spec(value: u32) -> Self {
        nni_new_spec(value as u64)
    }
}

impl From<u64> for NonNegativeInteger {
    fn from(value: u64) -> (r: Self) {
        NonNegativeInteger::new(value)
    }
}

impl vstd::std_specs::convert::FromSpecImpl<u64> for NonNegativeInteger {
    open spec fn obeys_from_spec() -> bool {
        true
    }

    open spec fn from_spec(value: u64) -> Self {
        nni_new_spec(value)
    }
}

impl From<usize> for NonNegativeInteger {
    fn from(value: usize) -> (r: Self) {
        NonNegativeInteger::new(value as u64)
    }
}

impl vstd::std_specs::convert::FromSpecImpl<usize> for NonNegativeInteger {
    open spec fn obeys_from_spec() -> bool {
        true
    }

    open spec fn from_spec(value: usize) -> Self {
        nni_new_spec(value as u64)
    }
}

impl From<NonNegativeInteger> for u64 {
    fn from(value: NonNegativeInteger) -> (r: u64) {
        value.as_u64()
    }
}

impl vstd::std_specs::convert::FromSpecImpl<NonNegativeInteger> for u64 {
    open spec fn obeys_from_spec() -> bool {
        true
    }

    open spec fn from_spec(value: NonNegativeInteger) -> u64 {
        nni_value(value)
    }
}

impl Default for NonNegativeInteger {
    fn default() -> (r: Self)
        ensures
            r == NonNegativeInteger::U8(0),
    {
        NonNegativeInteger::U8(0)
    }
}

impl TlvEncode for NonNegativeInteger {
    open spec fn encoding(&self) -> Seq<u8> {
        be_bytes(nni_value(*self) as nat, nni_width(*self) as nat)
    }

    fn size(&self) -> (r: usize) {
        proof {
            reveal_with_fuel(pow256, 9);
            lemma_be_bytes_val(nni_value(*self) as nat, nni_width(*self) as nat);
        }
        match *self {
            NonNegativeInteger::U8(_) => 1,
            NonNegativeInteger::U16(_) => 2,
            NonNegativeInteger::U32(_) => 4,
            NonNegativeInteger::U64(_) => 8,
        }
    }

    fn encode(&self) -> (r: Bytes) {
        proof {
            reveal_with_fuel(pow256, 9);
        }
        let mut out: Vec<u8> = Vec::new();
        match *self {
            NonNegativeInteger::U8(n) => push_be(&mut out, n as u64, 1),
            NonNegativeInteger::U16(n) => push_be(&mut out, n as u64, 2),
            NonNegativeInteger::U32(n) => push_be(&mut out, n as u64, 4),
            NonNegativeInteger::U64(n) => push_be(&mut out, n, 8),
        }
        proof {
            assert(out@ =~= self.encoding());
        }
        bytes_from_vec(out)
    }
}

impl TlvDecode for NonNegativeInteger {
    type Repr = NonNegativeInteger;

    open spec fn repr(&self) -> NonNegativeInteger {
        *self
    }

    open spec fn spec_decode(s: Seq<u8>) -> Result<(NonNegativeInteger, int), TlvError> {
        nni_decode_spec(s)
    }

    fn decode(bytes: &mut Bytes) -> (r: Result<Self, TlvError>) {
        let len = bytes_len(bytes);
        if !(len == 1 || len == 2 || len == 4 || len == 8) {
            return Err(TlvError::UnexpectedLength);
        }
        let v: u64 = {
            let s = bytes_as_slice(bytes);
            read_be(s)
        };
        proof {
            reveal_with_fuel(pow256, 9);
            reveal_with_fuel(be_val, 3);
            lemma_be_val_bound(bytes_view(*bytes));
            assert(bytes_view(*bytes).len() == 1 ==> bytes_view(*bytes).drop_last() =~= Seq::<
                u8,
            >::empty());
        }
        bytes_advance(bytes, len);
        if len == 1 {
            Ok(NonNegativeInteger::U8(v as u8))
        } else if len == 2 {
            Ok(NonNegativeInteger::U16(v as u16))
        } else if len == 4 {
            Ok(NonNegativeInteger::U32(v as u32))
        } else {
            Ok(NonNegativeInteger::U64(v))
        }
    }
}

/// Round trip: decoding the encoding of a `NonNegativeInteger` yields the
/// same variant and value back, consuming the whole encoding.
pub proof fn lemma_nni_round_trip(n: NonNegativeInteger)
    ensures
        nni_decode_spec(n.encoding()) == Ok::<(NonNegativeInteger, int), TlvError>(
            (n, nni_width(n)),
        ),
        n.encoding().len() == nni_width(n),
{
    reveal_with_fuel(pow256, 9);
    lemma_be_bytes_val(nni_value(n) as nat, nni_width(n) as nat);
}

} // verus!
