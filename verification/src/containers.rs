//! Instantiations of the encode/decode contract for the carrier types a TLV
//! payload is built from: raw octet buffers, fixed-width integers in
//! big-endian form, the empty value, repeated values, and optional values.

use crate::buffer::{bytes_advance, bytes_as_slice, bytes_clone, bytes_from_vec, bytes_len,
    bytes_split_to, bytes_view};
use crate::codec::{TlvDecode, TlvEncode};
use crate::error::TlvError;
use bytes::Bytes;
use crate::octets::{be_bytes, be_val, lemma_be_bytes_val, lemma_be_val_bound, pow256, push_be,
    read_be};
use vstd::prelude::*;

verus! {

impl TlvEncode for Bytes {
    open spec fn encoding(&self) -> Seq<u8> {
        bytes_view(*self)
    }

    fn size(&self) -> (r: usize) {
        bytes_len(self)
    }

    fn encode(&self) -> (r: Bytes) {
        bytes_clone(self)
    }
}

impl TlvDecode for Bytes {
    type Repr = Seq<u8>;

    open spec fn repr(&self) -> Seq<u8> {
        bytes_view(*self)
    }

    /// A raw octet buffer consumes the entire cursor; the caller must have
    /// restricted the cursor to the intended payload first.
    open spec fn spec_decode(s: Seq<u8>) -> Result<(Seq<u8>, int), TlvError> {
        Ok((s, s.len() as int))
    }

    fn decode(bytes: &mut Bytes) -> (r: Result<Self, TlvError>) {
        let n = bytes_len(bytes);
        let taken = bytes_split_to(bytes, n);
        proof {
            assert(bytes_view(taken) =~= bytes_view(*old(bytes)));
        }
        Ok(taken)
    }
}

impl TlvEncode for () {
    open spec fn encoding(&self) -> Seq<u8> {
        Seq::empty()
    }

    fn size(&self) -> (r: usize) {
        0
    }

    fn encode(&self) -> (r: Bytes) {
        bytes_from_vec(Vec::new())
    }
}

impl TlvDecode for () {
    type Repr = ();

    open spec fn repr(&self) -> () {
        ()
    }

    open spec fn spec_decode(s: Seq<u8>) -> Result<((), int), TlvError> {
        Ok(((), 0))
    }

    fn decode(bytes: &mut Bytes) -> (r: Result<Self, TlvError>) {
        proof {
            assert(bytes_view(*bytes).skip(0) =~= bytes_view(*bytes));
        }
        Ok(())
    }
}

impl TlvEncode for u8 {
    open spec fn encoding(&self) -> Seq<u8> {
        be_bytes(*self as nat, 1)
    }

    fn size(&self) -> (r: usize) {
        proof {
            reveal_with_fuel(pow256, 2);
            lemma_be_bytes_val(*self as nat, 1);
        }
        1
    }

    fn encode(&self) -> (r: Bytes) {
        proof {
            reveal_with_fuel(pow256, 2);
        }
        let mut out: Vec<u8> = Vec::new();
        push_be(&mut out, *self as u64, 1);
        proof {
            assert(out@ =~= self.encoding());
        }
        bytes_from_vec(out)
    }
}

impl TlvDecode for u8 {
    type Repr = u8;

    open spec fn repr(&self) -> u8 {
        *self
    }

    open spec fn spec_decode(s: Seq<u8>) -> Result<(u8, int), TlvError> {
        if s.len() < 1 {
            Err(TlvError::UnexpectedEndOfStream)
        } else {
            Ok(((be_val(s.subrange(0, 1)) as u8), 1))
        }
    }

    fn decode(bytes: &mut Bytes) -> (r: Result<Self, TlvError>) {
        if bytes_len(bytes) < 1 {
            return Err(TlvError::UnexpectedEndOfStream);
        }
        let v: u64 = {
            let s = bytes_as_slice(bytes);
            read_be(vstd::slice::slice_subrange(s, 0, 1))
        };
        proof {
            reveal_with_fuel(pow256, 2);
            lemma_be_val_bound(bytes_view(*bytes).subrange(0, 1));
        }
        bytes_advance(bytes, 1);
        Ok(v as u8)
    }
}

impl TlvEncode for i8 {
    open spec fn encoding(&self) -> Seq<u8> {
        be_bytes((*self as u8) as nat, 1)
    }

    fn size(&self) -> (r: usize) {
        proof {
            reveal_with_fuel(pow256, 2);
            lemma_be_bytes_val((*self as u8) as nat, 1);
        }
        1
    }

    fn encode(&self) -> (r: Bytes) {
        proof {
            reveal_with_fuel(pow256, 2);
        }
        let mut out: Vec<u8> = Vec::new();
        push_be(&mut out, (*self as u8) as u64, 1);
        proof {
            assert(out@ =~= self.encoding());
        }
        bytes_from_vec(out)
    }
}

impl TlvDecode for i8 {
    type Repr = i8;

    open spec fn repr(&self) -> i8 {
        *self
    }

    open spec fn spec_decode(s: Seq<u8>) -> Result<(i8, int), TlvError> {
        if s.len() < 1 {
            Err(TlvError::UnexpectedEndOfStream)
        } else {
            Ok((((be_val(s.subrange(0, 1)) as u8) as i8), 1))
        }
    }

    fn decode(bytes: &mut Bytes) -> (r: Result<Self, TlvError>) {
        if bytes_len(bytes) < 1 {
            return Err(TlvError::UnexpectedEndOfStream);
        }
        let v: u64 = {
            let s = bytes_as_slice(bytes);
            read_be(vstd::slice::slice_subrange(s, 0, 1))
        };
        proof {
            reveal_with_fuel(pow256, 2);
            lemma_be_val_bound(bytes_view(*bytes).subrange(0, 1));
        }
        bytes_advance(bytes, 1);
        Ok((v as u8) as i8)
    }
}

impl TlvEncode for u16 {
    open spec fn encoding(&self) -> Seq<u8> {
        be_bytes(*self as nat, 2)
    }

    fn size(&self) -> (r: usize) {
        proof {
            reveal_with_fuel(pow256, 3);
            lemma_be_bytes_val(*self as nat, 2);
        }
        2
    }

    fn encode(&self) -> (r: Bytes) {
        proof {
            reveal_with_fuel(pow256, 3);
        }
        let mut out: Vec<u8> = Vec::new();
        push_be(&mut out, *self as u64, 2);
        proof {
            assert(out@ =~= self.encoding());
        }
        bytes_from_vec(out)
    }
}

impl TlvDecode for u16 {
    type Repr = u16;

    open spec fn repr(&self) -> u16 {
        *self
    }

    open spec fn spec_decode(s: Seq<u8>) -> Result<(u16, int), TlvError> {
        if s.len() < 2 {
            Err(TlvError::UnexpectedEndOfStream)
        } else {
            Ok(((be_val(s.subrange(0, 2)) as u16), 2))
        }
    }

    fn decode(bytes: &mut Bytes) -> (r: Result<Self, TlvError>) {
        if bytes_len(bytes) < 2 {
            return Err(TlvError::UnexpectedEndOfStream);
        }
        let v: u64 = {
            let s = bytes_as_slice(bytes);
            read_be(vstd::slice::slice_subrange(s, 0, 2))
        };
        proof {
            reveal_with_fuel(pow256, 3);
            lemma_be_val_bound(bytes_view(*bytes).subrange(0, 2));
        }
        bytes_advance(bytes, 2);
        Ok(v as u16)
    }
}

impl TlvEncode for i16 {
    open spec fn encoding(&self) -> Seq<u8> {
        be_bytes((*self as u16) as nat, 2)
    }

    fn size(&self) -> (r: usize) {
        proof {
            reveal_with_fuel(pow256, 3);
            lemma_be_bytes_val((*self as u16) as nat, 2);
        }
        2
    }

    fn encode(&self) -> (r: Bytes) {
        proof {
            reveal_with_fuel(pow256, 3);
        }
        let mut out: Vec<u8> = Vec::new();
        push_be(&mut out, (*self as u16) as u64, 2);
        proof {
            assert(out@ =~= self.encoding());
        }
        bytes_from_vec(out)
    }
}

impl TlvDecode for i16 {
    type Repr = i16;

    open spec fn repr(&self) -> i16 {
        *self
    }

    open spec fn spec_decode(s: Seq<u8>) -> Result<(i16, int), TlvError> {
        if s.len() < 2 {
            Err(TlvError::UnexpectedEndOfStream)
        } else {
            Ok((((be_val(s.subrange(0, 2)) as u16) as i16), 2))
        }
    }

    fn decode(bytes: &mut Bytes) -> (r: Result<Self, TlvError>) {
        if bytes_len(bytes) < 2 {
            return Err(TlvError::UnexpectedEndOfStream);
        }
        let v: u64 = {
            let s = bytes_as_slice(bytes);
            read_be(vstd::slice::slice_subrange(s, 0, 2))
        };
        proof {
            reveal_with_fuel(pow256, 3);
            lemma_be_val_bound(bytes_view(*bytes).subrange(0, 2));
        }
        bytes_advance(bytes, 2);
        Ok((v as u16) as i16)
    }
}

impl TlvEncode for u32 {
    open spec fn encoding(&self) -> Seq<u8> {
        be_bytes(*self as nat, 4)
    }

    fn size(&self) -> (r: usize) {
        proof {
            reveal_with_fuel(pow256, 5);
            lemma_be_bytes_val(*self as nat, 4);
        }
        4
    }

    fn encode(&self) -> (r: Bytes) {
        proof {
            reveal_with_fuel(pow256, 5);
        }
        let mut out: Vec<u8> = Vec::new();
        push_be(&mut out, *self as u64, 4);
        proof {
            assert(out@ =~= self.encoding());
        }
        bytes_from_vec(out)
    }
}

impl TlvDecode for u32 {
    type Repr = u32;

    open spec fn repr(&self) -> u32 {
        *self
    }

    open spec fn spec_decode(s: Seq<u8>) -> Result<(u32, int), TlvError> {
        if s.len() < 4 {
            Err(TlvError::UnexpectedEndOfStream)
        } else {
            Ok(((be_val(s.subrange(0, 4)) as u32), 4))
        }
    }

    fn decode(bytes: &mut Bytes) -> (r: Result<Self, TlvError>) {
        if bytes_len(bytes) < 4 {
            return Err(TlvError::UnexpectedEndOfStream);
        }
        let v: u64 = {
            let s = bytes_as_slice(bytes);
            read_be(vstd::slice::slice_subrange(s, 0, 4))
        };
        proof {
            reveal_with_fuel(pow256, 5);
            lemma_be_val_bound(bytes_view(*bytes).subrange(0, 4));
        }
        bytes_advance(bytes, 4);
        Ok(v as u32)
    }
}

impl TlvEncode for i32 {
    open spec fn encoding(&self) -> Seq<u8> {
        be_bytes((*self as u32) as nat, 4)
    }

    fn size(&self) -> (r: usize) {
        proof {
            reveal_with_fuel(pow256, 5);
            lemma_be_bytes_val((*self as u32) as nat, 4);
        }
        4
    }

    fn encode(&self) -> (r: Bytes) {
        proof {
            reveal_with_fuel(pow256, 5);
        }
        let mut out: Vec<u8> = Vec::new();
        push_be(&mut out, (*self as u32) as u64, 4);
        proof {
            assert(out@ =~= self.encoding());
        }
        bytes_from_vec(out)
    }
}

impl TlvDecode for i32 {
    type Repr = i32;

    open spec fn repr(&self) -> i32 {
        *self
    }

    open spec fn spec_decode(s: Seq<u8>) -> Result<(i32, int), TlvError> {
        if s.len() < 4 {
            Err(TlvError::UnexpectedEndOfStream)
        } else {
            Ok((((be_val(s.subrange(0, 4)) as u32) as i32), 4))
        }
    }

    fn decode(bytes: &mut Bytes) -> (r: Result<Self, TlvError>) {
        if bytes_len(bytes) < 4 {
            return Err(TlvError::UnexpectedEndOfStream);
        }
        let v: u64 = {
            let s = bytes_as_slice(bytes);
            read_be(vstd::slice::slice_subrange(s, 0, 4))
        };
        proof {
            reveal_with_fuel(pow256, 5);
            lemma_be_val_bound(bytes_view(*bytes).subrange(0, 4));
        }
        bytes_advance(bytes, 4);
        Ok((v as u32) as i32)
    }
}

impl TlvEncode for u64 {
    open spec fn encoding(&self) -> Seq<u8> {
        be_bytes(*self as nat, 8)
    }

    fn size(&self) -> (r: usize) {
        proof {
            reveal_with_fuel(pow256, 9);
            lemma_be_bytes_val(*self as nat, 8);
        }
        8
    }

    fn encode(&self) -> (r: Bytes) {
        proof {
            reveal_with_fuel(pow256, 9);
        }
        let mut out: Vec<u8> = Vec::new();
        push_be(&mut out, *self, 8);
        proof {
            assert(out@ =~= self.encoding());
        }
        bytes_from_vec(out)
    }
}

impl TlvDecode for u64 {
    type Repr = u64;

    open spec fn repr(&self) -> u64 {
        *self
    }

    open spec fn spec_decode(s: Seq<u8>) -> Result<(u64, int), TlvError> {
        if s.len() < 8 {
            Err(TlvError::UnexpectedEndOfStream)
        } else {
            Ok(((be_val(s.subrange(0, 8)) as u64), 8))
        }
    }

    fn decode(bytes: &mut Bytes) -> (r: Result<Self, TlvError>) {
        if bytes_len(bytes) < 8 {
            return Err(TlvError::UnexpectedEndOfStream);
        }
        let v: u64 = {
            let s = bytes_as_slice(bytes);
            read_be(vstd::slice::slice_subrange(s, 0, 8))
        };
        proof {
            reveal_with_fuel(pow256, 9);
            lemma_be_val_bound(bytes_view(*bytes).subrange(0, 8));
        }
        bytes_advance(bytes, 8);
        Ok(v)
    }
}

impl TlvEncode for i64 {
    open spec fn encoding(&self) -> Seq<u8> {
        be_bytes((*self as u64) as nat, 8)
    }

    fn size(&self) -> (r: usize) {
        proof {
            reveal_with_fuel(pow256, 9);
            lemma_be_bytes_val((*self as u64) as nat, 8);
        }
        8
    }

    fn encode(&self) -> (r: Bytes) {
        proof {
            reveal_with_fuel(pow256, 9);
        }
        let mut out: Vec<u8> = Vec::new();
        push_be(&mut out, *self as u64, 8);
        proof {
            assert(out@ =~= self.encoding());
        }
        bytes_from_vec(out)
    }
}

impl TlvDecode for i64 {
    type Repr = i64;

    open spec fn repr(&self) -> i64 {
        *self
    }

    open spec fn spec_decode(s: Seq<u8>) -> Result<(i64, int), TlvError> {
        if s.len() < 8 {
            Err(TlvError::UnexpectedEndOfStream)
        } else {
            Ok((((be_val(s.subrange(0, 8)) as u64) as i64), 8))
        }
    }

    fn decode(bytes: &mut Bytes) -> (r: Result<Self, TlvError>) {
        if bytes_len(bytes) < 8 {
            return Err(TlvError::UnexpectedEndOfStream);
        }
        let v: u64 = {
            let s = bytes_as_slice(bytes);
            read_be(vstd::slice::slice_subrange(s, 0, 8))
        };
        proof {
            reveal_with_fuel(pow256, 9);
            lemma_be_val_bound(bytes_view(*bytes).subrange(0, 8));
        }
        bytes_advance(bytes, 8);
        Ok(v as i64)
    }
}

impl<const N: usize> TlvEncode for [u8; N] {
    open spec fn encoding(&self) -> Seq<u8> {
        self@
    }

    fn size(&self) -> (r: usize) {
        N
    }

    fn encode(&self) -> (r: Bytes) {
        let mut out: Vec<u8> = Vec::new();
        out.extend_from_slice(self.as_slice());
        proof {
            assert(out@ =~= self@);
        }
        bytes_from_vec(out)
    }
}

impl<const N: usize> TlvDecode for [u8; N] {
    type Repr = Seq<u8>;

    open spec fn repr(&self) -> Seq<u8> {
        self@
    }

    open spec fn spec_decode(s: Seq<u8>) -> Result<(Seq<u8>, int), TlvError> {
        if s.len() < N {
            Err(TlvError::UnexpectedEndOfStream)
        } else {
            Ok((s.take(N as int), N as int))
        }
    }

    #[verifier::loop_isolation(false)]
    fn decode(bytes: &mut Bytes) -> (r: Result<Self, TlvError>) {
        if bytes_len(bytes) < N {
            return Err(TlvError::UnexpectedEndOfStream);
        }
        let mut buf: [u8; N] = [0u8; N];
        let s = bytes_as_slice(bytes);
        let mut i: usize = 0;
        while i < N
            invariant
                i <= N,
                forall|j: int| 0 <= j < i ==> buf@[j] == s@[j],
            decreases N - i,
        {
            buf[i] = *vstd::slice::slice_index_get(s, i);
            i = i + 1;
        }
        bytes_advance(bytes, N);
        proof {
            assert(buf@ =~= bytes_view(*old(bytes)).take(N as int));
        }
        Ok(buf)
    }
}

/// Round trip: every fixed-width integer decodes back from its own encoding,
/// consuming exactly its width.
pub proof fn lemma_u8_round_trip(v: u8)
    ensures
        u8::spec_decode(v.encoding()) == Ok::<(u8, int), TlvError>((v, 1)),
        v.encoding().len() == 1,
{
    reveal_with_fuel(pow256, 2);
    lemma_be_bytes_val(v as nat, 1);
    assert(v.encoding().subrange(0, 1) =~= v.encoding());
}

/// Round trip, as [`lemma_u8_round_trip`], for the signed width.
pub proof fn lemma_i8_round_trip(v: i8)
    ensures
        i8::spec_decode(v.encoding()) == Ok::<(i8, int), TlvError>((v, 1)),
        v.encoding().len() == 1,
{
    reveal_with_fuel(pow256, 2);
    lemma_be_bytes_val((v as u8) as nat, 1);
    assert(v.encoding().subrange(0, 1) =~= v.encoding());
    assert(((v as u8) as i8) == v) by (bit_vector);
}

/// Round trip, as [`lemma_u8_round_trip`], for two octets.
pub proof fn lemma_u16_round_trip(v: u16)
    ensures
        u16::spec_decode(v.encoding()) == Ok::<(u16, int), TlvError>((v, 2)),
        v.encoding().len() == 2,
{
    reveal_with_fuel(pow256, 3);
    lemma_be_bytes_val(v as nat, 2);
    assert(v.encoding().subrange(0, 2) =~= v.encoding());
}

/// Round trip, as [`lemma_u8_round_trip`], for the signed width.
pub proof fn lemma_i16_round_trip(v: i16)
    ensures
        i16::spec_decode(v.encoding()) == Ok::<(i16, int), TlvError>((v, 2)),
        v.encoding().len() == 2,
{
    reveal_with_fuel(pow256, 3);
    lemma_be_bytes_val((v as u16) as nat, 2);
    assert(v.encoding().subrange(0, 2) =~= v.encoding());
    assert(((v as u16) as i16) == v) by (bit_vector);
}

/// Round trip, as [`lemma_u8_round_trip`], for four octets.
pub proof fn lemma_u32_round_trip(v: u32)
    ensures
        u32::spec_decode(v.encoding()) == Ok::<(u32, int), TlvError>((v, 4)),
        v.encoding().len() == 4,
{
    reveal_with_fuel(pow256, 5);
    lemma_be_bytes_val(v as nat, 4);
    assert(v.encoding().subrange(0, 4) =~= v.encoding());
}

/// Round trip, as [`lemma_u8_round_trip`], for the signed width.
pub proof fn lemma_i32_round_trip(v: i32)
    ensures
        i32::spec_decode(v.encoding()) == Ok::<(i32, int), TlvError>((v, 4)),
        v.encoding().len() == 4,
{
    reveal_with_fuel(pow256, 5);
    lemma_be_bytes_val((v as u32) as nat, 4);
    assert(v.encoding().subrange(0, 4) =~= v.encoding());
    assert(((v as u32) as i32) == v) by (bit_vector);
}

/// Round trip, as [`lemma_u8_round_trip`], for eight octets.
pub proof fn lemma_u64_round_trip(v: u64)
    ensures
        u64::spec_decode(v.encoding()) == Ok::<(u64, int), TlvError>((v, 8)),
        v.encoding().len() == 8,
{
    reveal_with_fuel(pow256, 9);
    lemma_be_bytes_val(v as nat, 8);
    assert(v.encoding().subrange(0, 8) =~= v.encoding());
}

/// Round trip, as [`lemma_u8_round_trip`], for the signed width.
pub proof fn lemma_i64_round_trip(v: i64)
    ensures
        i64::spec_decode(v.encoding()) == Ok::<(i64, int), TlvError>((v, 8)),
        v.encoding().len() == 8,
{
    reveal_with_fuel(pow256, 9);
    lemma_be_bytes_val((v as u64) as nat, 8);
    assert(v.encoding().subrange(0, 8) =~= v.encoding());
    assert(((v as u64) as i64) == v) by (bit_vector);
}

/// The concatenation of the encodings of the values of `s`, in order.
pub open spec fn seq_encoding<T: TlvEncode>(s: Seq<T>) -> Seq<u8>
    decreases s.len(),
{
    if s.len() == 0 {
        Seq::empty()
    } else {
        s.first().encoding() + seq_encoding(s.drop_first())
    }
}

/// Appending a value appends its encoding.
pub proof fn lemma_seq_encoding_push<T: TlvEncode>(s: Seq<T>, x: T)
    ensures
        seq_encoding(s.push(x)) == seq_encoding(s) + x.encoding(),
    decreases s.len(),
{
    if s.len() == 0 {
        let e = Seq::<T>::empty();
        assert(s.push(x).drop_first() =~= e);
        assert(s =~= e);
        assert(seq_encoding::<T>(e) == Seq::<u8>::empty());
        assert(s.push(x).first() == x);
        assert(seq_encoding(s.push(x)) == x.encoding() + seq_encoding::<T>(e));
        assert(x.encoding() + Seq::<u8>::empty() =~= x.encoding());
        assert(Seq::<u8>::empty() + x.encoding() =~= x.encoding());
    } else {
        assert(s.push(x).drop_first() =~= s.drop_first().push(x));
        lemma_seq_encoding_push(s.drop_first(), x);
        assert(s.push(x).first() == s.first());
        assert(seq_encoding(s.push(x)) == s.first().encoding() + seq_encoding(
            s.drop_first().push(x),
        ));
        assert(seq_encoding(s) == s.first().encoding() + seq_encoding(s.drop_first()));
        assert(s.first().encoding() + (seq_encoding(s.drop_first()) + x.encoding()) =~= (
        s.first().encoding() + seq_encoding(s.drop_first())) + x.encoding());
    }
}

/// The encoding of a sequence splits at any index into the encodings of the
/// two halves.
pub proof fn lemma_seq_encoding_split<T: TlvEncode>(s: Seq<T>, i: int)
    requires
        0 <= i <= s.len(),
    ensures
        seq_encoding(s) == seq_encoding(s.take(i)) + seq_encoding(s.skip(i)),
    decreases i,
{
    if i == 0 {
        assert(s.skip(0) =~= s);
        assert(seq_encoding(s) =~= seq_encoding(s.take(0)) + seq_encoding(s.skip(0)));
    } else {
        lemma_seq_encoding_split(s, i - 1);
        assert(s.take(i) =~= s.take(i - 1).push(s[i - 1]));
        lemma_seq_encoding_push(s.take(i - 1), s[i - 1]);
        assert(s.skip(i - 1).len() > 0);
        assert(s.skip(i - 1).first() == s[i - 1]);
        assert(s.skip(i - 1).drop_first() =~= s.skip(i));
        assert(seq_encoding(s.skip(i - 1)) == s[i - 1].encoding() + seq_encoding(s.skip(i)));
        assert(seq_encoding(s) =~= seq_encoding(s.take(i)) + seq_encoding(s.skip(i)));
    }
}

/// What decoding a sequence of values takes from `s`: values are decoded one
/// after the other while octets remain; a type mismatch ends the sequence
/// cleanly before the offending record; any other error propagates. A value
/// that takes no octets cannot make progress, so the sequence ends with it.
pub open spec fn seq_decode_spec<T: TlvDecode>(s: Seq<u8>) -> Result<
    (Seq<T::Repr>, int),
    TlvError,
>
    decreases s.len(),
{
    if s.len() == 0 {
        Ok((Seq::empty(), 0))
    } else {
        match T::spec_decode(s) {
            Err(TlvError::TypeMismatch { .. }) => Ok((Seq::empty(), 0)),
            Err(e) => Err(e),
            Ok(p) => {
                if 0 < p.1 <= s.len() {
                    match seq_decode_spec::<T>(s.skip(p.1)) {
                        Ok(q) => Ok((seq![p.0] + q.0, p.1 + q.1)),
                        Err(e) => Err(e),
                    }
                } else {
                    Ok((seq![p.0], 0))
                }
            },
        }
    }
}

/// A decoded sequence consumes no more octets than the buffer holds.
pub proof fn lemma_seq_decode_consumed<T: TlvDecode>(s: Seq<u8>)
    ensures
        seq_decode_spec::<T>(s) matches Ok(p) ==> 0 <= p.1 <= s.len(),
    decreases s.len(),
{
    if s.len() > 0 {
        match T::spec_decode(s) {
            Ok(p) => {
                if 0 < p.1 <= s.len() {
                    lemma_seq_decode_consumed::<T>(s.skip(p.1));
                }
            },
            Err(_) => {},
        }
    }
}

/// Sequence backoff: when the next record belongs to a different type, the
/// sequence ends exactly there, with no octet of the offending record
/// consumed.
pub proof fn lemma_seq_decode_stops_at_mismatch<T: TlvDecode>(s: Seq<u8>)
    requires
        s.len() > 0,
        T::spec_decode(s) matches Err(TlvError::TypeMismatch { .. }),
    ensures
        seq_decode_spec::<T>(s) == Ok::<(Seq<T::Repr>, int), TlvError>((Seq::empty(), 0)),
{
}

/// Sequence step: a record the element type accepts becomes the head of the
/// decoded sequence, and the tail is decoded from the rest of the buffer.
pub proof fn lemma_seq_decode_step<T: TlvDecode>(s: Seq<u8>)
    requires
        s.len() > 0,
        T::spec_decode(s) matches Ok(p) && 0 < p.1 <= s.len(),
    ensures
        T::spec_decode(s) matches Ok(p) ==> seq_decode_spec::<T>(s) == (
        match seq_decode_spec::<T>(s.skip(p.1)) {
            Ok(q) => Ok::<(Seq<T::Repr>, int), TlvError>((seq![p.0] + q.0, p.1 + q.1)),
            Err(e) => Err(e),
        }),
{
}

impl<T: TlvEncode> TlvEncode for Vec<T> {
    open spec fn encoding(&self) -> Seq<u8> {
        seq_encoding(self@)
    }

    fn size(&self) -> (r: usize) {
        let ghost s = self@;
        let n = self.len();
        let mut total: usize = 0;
        let mut i: usize = 0;
        while i < n
            invariant
                i <= n,
                n == s.len(),
                s == self@,
                seq_encoding(s).len() <= usize::MAX,
                total == seq_encoding(s.take(i as int)).len(),
            decreases n - i,
        {
            proof {
                lemma_seq_encoding_split(s, i as int);
                lemma_seq_encoding_split(s, i + 1 as int);
                assert(s.take(i + 1 as int) =~= s.take(i as int).push(s[i as int]));
                lemma_seq_encoding_push(s.take(i as int), s[i as int]);
            }
            let sz = (&self[i]).size();
            total = total + sz;
            i = i + 1;
        }
        proof {
            assert(s.take(n as int) =~= s);
        }
        total
    }

    fn encode(&self) -> (r: Bytes) {
        let ghost s = self@;
        let n = self.len();
        let mut out: Vec<u8> = Vec::new();
        let mut i: usize = 0;
        while i < n
            invariant
                i <= n,
                n == s.len(),
                s == self@,
                seq_encoding(s).len() <= usize::MAX,
                out@ == seq_encoding(s.take(i as int)),
            decreases n - i,
        {
            proof {
                lemma_seq_encoding_split(s, i as int);
                lemma_seq_encoding_split(s, i + 1 as int);
                assert(s.take(i + 1 as int) =~= s.take(i as int).push(s[i as int]));
                lemma_seq_encoding_push(s.take(i as int), s[i as int]);
            }
            let piece = (&self[i]).encode();
            let ps = bytes_as_slice(&piece);
            out.extend_from_slice(ps);
            i = i + 1;
        }
        proof {
            assert(s.take(n as int) =~= s);
        }
        bytes_from_vec(out)
    }
}

impl<T: TlvDecode> TlvDecode for Vec<T> {
    type Repr = Seq<T::Repr>;

    open spec fn repr(&self) -> Seq<T::Repr> {
        self@.map_values(|t: T| t.repr())
    }

    open spec fn spec_decode(s: Seq<u8>) -> Result<(Seq<T::Repr>, int), TlvError> {
        seq_decode_spec::<T>(s)
    }

    #[verifier::loop_isolation(false)]
    fn decode(bytes: &mut Bytes) -> (r: Result<Self, TlvError>) {
        let ghost s0 = bytes_view(*bytes);
        let mut cur: Bytes = bytes_clone(bytes);
        let mut ret: Vec<T> = Vec::new();
        let ghost mut k: int = 0;
        proof {
            assert(s0.skip(0) =~= s0);
            assert(ret@.map_values(|t: T| t.repr()) =~= Seq::<T::Repr>::empty());
        }
        loop
            invariant
                0 <= k <= s0.len(),
                bytes_view(cur) == s0.skip(k),
                bytes_view(*bytes) == s0,
                seq_decode_spec::<T>(s0) == (match seq_decode_spec::<T>(s0.skip(k)) {
                    Ok(q) => Ok::<(Seq<T::Repr>, int), TlvError>(
                        (ret@.map_values(|t: T| t.repr()) + q.0, k + q.1),
                    ),
                    Err(e) => Err(e),
                }),
            decreases s0.len() - k,
        {
            if bytes_len(&cur) == 0 {
                proof {
                    assert(s0.skip(k).len() == 0);
                    assert(seq_decode_spec::<T>(s0.skip(k)) == Ok::<(Seq<T::Repr>, int), TlvError>(
                        (Seq::empty(), 0),
                    ));
                    assert(ret@.map_values(|t: T| t.repr()) + Seq::<T::Repr>::empty() =~= ret@.map_values(
                        |t: T| t.repr(),
                    ));
                }
                *bytes = cur;
                return Ok(ret);
            }
            let before = bytes_len(&cur);
            let mut probe: Bytes = bytes_clone(&cur);
            let t = T::decode(&mut probe);
            match t {
                Ok(v) => {
                    let after = bytes_len(&probe);
                    let consumed = before - after;
                    let ghost kold = k;
                    let ghost pre = ret@;
                    let ghost pt = T::spec_decode(s0.skip(k))->Ok_0;
                    proof {
                        assert(bytes_view(probe) == s0.skip(k).skip(pt.1));
                        assert(after == s0.skip(k).len() - pt.1);
                        assert(consumed == pt.1);
                    }
                    bytes_advance(&mut cur, consumed);
                    ret.push(v);
                    proof {
                        k = k + pt.1;
                        assert(s0.skip(kold).skip(pt.1) =~= s0.skip(k));
                        assert(v.repr() == pt.0);
                        assert(ret@ == pre.push(v));
                        assert(ret@.map_values(|t: T| t.repr()) =~= pre.map_values(
                            |t: T| t.repr(),
                        ).push(pt.0));
                    }
                    if consumed == 0 {
                        proof {
                            assert(seq_decode_spec::<T>(s0.skip(kold)) == Ok::<
                                (Seq<T::Repr>, int),
                                TlvError,
                            >((seq![pt.0], 0)));
                            assert(pre.map_values(|t: T| t.repr()) + seq![pt.0]
                                =~= ret@.map_values(|t: T| t.repr()));
                        }
                        *bytes = cur;
                        return Ok(ret);
                    }
                    proof {
                        match seq_decode_spec::<T>(s0.skip(k)) {
                            Ok(q) => {
                                assert(pre.map_values(|t: T| t.repr()) + (seq![pt.0] + q.0)
                                    =~= ret@.map_values(|t: T| t.repr()) + q.0);
                            },
                            Err(_) => {},
                        }
                    }
                },
                Err(e) => {
                    match e {
                        TlvError::TypeMismatch { expected: _, found: _ } => {
                            proof {
                                assert(seq_decode_spec::<T>(s0.skip(k)) == Ok::<
                                    (Seq<T::Repr>, int),
                                    TlvError,
                                >((Seq::empty(), 0)));
                                assert(ret@.map_values(|t: T| t.repr()) + Seq::<T::Repr>::empty()
                                    =~= ret@.map_values(|t: T| t.repr()));
                            }
                            *bytes = cur;
                            return Ok(ret);
                        },
                        _ => {
                            return Err(e);
                        },
                    }
                },
            }
        }
    }
}

/// What decoding an optional value takes from `s`: a value the inner type
/// accepts is present; a type mismatch or an exhausted buffer means the value
/// is absent and nothing is consumed; any other error propagates.
pub open spec fn opt_decode_spec<T: TlvDecode>(s: Seq<u8>) -> Result<
    (Option<T::Repr>, int),
    TlvError,
> {
    match T::spec_decode(s) {
        Ok(p) => Ok((Some(p.0), p.1)),
        Err(TlvError::TypeMismatch { .. }) => Ok((None, 0)),
        Err(TlvError::UnexpectedEndOfStream) => Ok((None, 0)),
        Err(e) => Err(e),
    }
}

/// Optional absence: a record of a different type, or a buffer that ends
/// before a value, yields absent without consuming an octet and without an
/// error.
pub proof fn lemma_opt_decode_absent<T: TlvDecode>(s: Seq<u8>)
    requires
        T::spec_decode(s) matches Err(e) && (e matches TlvError::TypeMismatch { .. } || e
            == TlvError::UnexpectedEndOfStream),
    ensures
        opt_decode_spec::<T>(s) == Ok::<(Option<T::Repr>, int), TlvError>((None, 0)),
{
}

/// Optional presence: a record the inner type accepts is taken exactly as
/// the inner type alone would take it.
pub proof fn lemma_opt_decode_present<T: TlvDecode>(s: Seq<u8>)
    requires
        T::spec_decode(s) matches Ok(p),
    ensures
        T::spec_decode(s) matches Ok(p) ==> opt_decode_spec::<T>(s) == Ok::<
            (Option<T::Repr>, int),
            TlvError,
        >((Some(p.0), p.1)),
{
}

impl<T: TlvEncode> TlvEncode for Option<T> {
    open spec fn encoding(&self) -> Seq<u8> {
        match self {
            Option::Some(v) => v.encoding(),
            Option::None => Seq::empty(),
        }
    }

    fn size(&self) -> (r: usize) {
        match self {
            Option::Some(v) => v.size(),
            Option::None => 0,
        }
    }

    fn encode(&self) -> (r: Bytes) {
        match self {
            Option::Some(v) => v.encode(),
            Option::None => bytes_from_vec(Vec::new()),
        }
    }
}

impl<T: TlvDecode> TlvDecode for Option<T> {
    type Repr = Option<T::Repr>;

    open spec fn repr(&self) -> Option<T::Repr> {
        match self {
            Option::Some(v) => Some(v.repr()),
            Option::None => None,
        }
    }

    open spec fn spec_decode(s: Seq<u8>) -> Result<(Option<T::Repr>, int), TlvError> {
        opt_decode_spec::<T>(s)
    }

    fn decode(bytes: &mut Bytes) -> (r: Result<Self, TlvError>) {
        let before = bytes_len(bytes);
        let mut probe: Bytes = bytes_clone(bytes);
        let t = T::decode(&mut probe);
        match t {
            Ok(v) => {
                let after = bytes_len(&probe);
                let consumed = before - after;
                bytes_advance(bytes, consumed);
                Ok(Some(v))
            },
            Err(e) => {
                match e {
                    TlvError::TypeMismatch { expected: _, found: _ } => {
                        proof {
                            assert(bytes_view(*bytes).skip(0) =~= bytes_view(*bytes));
                        }
                        Ok(None)
                    },
                    TlvError::UnexpectedEndOfStream => {
                        proof {
                            assert(bytes_view(*bytes).skip(0) =~= bytes_view(*bytes));
                        }
                        Ok(None)
                    },
                    _ => Err(e),
                }
            },
        }
    }
}

} // verus!
