//! Concrete checks of the codec's stated behaviour: round trips at the width
//! boundaries, tolerance of non-minimal forms, truncation errors, and the
//! size/encode agreement.

use bytes::{Buf, Bytes};
use ndn_tlv::{parse_record_header, tlv_typ_critical, NonNegativeInteger, TlvDecode, TlvEncode,
    TlvError, VarNum};

#[test]
fn varnum_round_trip_boundaries() {
    let cases: [(u64, usize); 10] = [
        (0, 1),
        (1, 1),
        (0xFC, 1),
        (0xFD, 3),
        (0xFFFF, 3),
        (0x10000, 5),
        (0xFFFF_FFFF, 5),
        (0x1_0000_0000, 9),
        (0x1234_5678_9ABC_DEF0, 9),
        (u64::MAX, 9),
    ];
    for (value, width) in cases {
        let num = VarNum::new(value);
        let encoded = num.encode();
        // size() always equals encode().len()
        assert_eq!(num.size(), encoded.len());
        // the minimal width is chosen
        assert_eq!(encoded.len(), width);
        let mut cursor = encoded.clone();
        let decoded = VarNum::decode(&mut cursor).unwrap();
        assert_eq!(decoded.value(), value);
        assert_eq!(cursor.remaining(), 0);
    }
}

#[test]
fn varnum_exact_wire_forms() {
    assert_eq!(&VarNum::new(0x12).encode()[..], &[0x12]);
    assert_eq!(&VarNum::new(0x1234).encode()[..], &[0xFD, 0x12, 0x34]);
    assert_eq!(
        &VarNum::new(0x1234_5678).encode()[..],
        &[0xFE, 0x12, 0x34, 0x56, 0x78]
    );
    assert_eq!(
        &VarNum::new(0x0102_0304_0506_0708).encode()[..],
        &[0xFF, 1, 2, 3, 4, 5, 6, 7, 8]
    );
}

#[test]
fn varnum_tolerates_wide_forms() {
    // value 5 in each wider-than-minimal form still decodes to 5
    let mut three = Bytes::from(&[0xFD, 0, 5][..]);
    assert_eq!(VarNum::decode(&mut three).unwrap().value(), 5);
    let mut five = Bytes::from(&[0xFE, 0, 0, 0, 5][..]);
    assert_eq!(VarNum::decode(&mut five).unwrap().value(), 5);
    let mut nine = Bytes::from(&[0xFF, 0, 0, 0, 0, 0, 0, 0, 5][..]);
    assert_eq!(VarNum::decode(&mut nine).unwrap().value(), 5);
}

#[test]
fn varnum_truncated_fails() {
    let cases: [&[u8]; 7] = [
        &[],
        &[0xFD],
        &[0xFD, 1],
        &[0xFE, 1, 2, 3],
        &[0xFF],
        &[0xFF, 1, 2, 3, 4, 5, 6, 7],
        &[0xFE, 9],
    ];
    for case in cases {
        let mut data = Bytes::copy_from_slice(case);
        assert_eq!(
            VarNum::decode(&mut data).unwrap_err(),
            TlvError::UnexpectedEndOfStream
        );
    }
}

#[test]
fn nni_round_trip() {
    let values: [u64; 8] = [0, 1, 0xFF, 0x100, 0xFFFF, 0x10000, 0xFFFF_FFFF, u64::MAX];
    let widths: [usize; 8] = [1, 1, 1, 2, 2, 4, 4, 8];
    for i in 0..values.len() {
        let n = NonNegativeInteger::new(values[i]);
        let encoded = n.encode();
        assert_eq!(n.size(), encoded.len());
        assert_eq!(encoded.len(), widths[i]);
        let mut cursor = encoded.clone();
        let decoded = NonNegativeInteger::decode(&mut cursor).unwrap();
        assert_eq!(decoded, n);
        assert_eq!(decoded.as_u64(), values[i]);
        assert_eq!(cursor.remaining(), 0);
    }
}

#[test]
fn nni_variants_and_accessors() {
    assert_eq!(NonNegativeInteger::new(7), NonNegativeInteger::U8(7));
    assert_eq!(NonNegativeInteger::new(0x300), NonNegativeInteger::U16(0x300));
    assert_eq!(
        NonNegativeInteger::new(0x3_0000),
        NonNegativeInteger::U32(0x3_0000)
    );
    assert_eq!(
        NonNegativeInteger::new(0x3_0000_0000),
        NonNegativeInteger::U64(0x3_0000_0000)
    );
    assert_eq!(NonNegativeInteger::U16(300).as_usize(), 300);
    assert_eq!(NonNegativeInteger::default(), NonNegativeInteger::U8(0));
    // conversions pick the smallest representation as `new` does
    assert_eq!(
        NonNegativeInteger::from(0x300u16),
        NonNegativeInteger::U16(0x300)
    );
    assert_eq!(NonNegativeInteger::from(9u32), NonNegativeInteger::U8(9));
    assert_eq!(u64::from(NonNegativeInteger::U32(70000)), 70000);
    assert_eq!(u64::from(VarNum::from(70000u32)), 70000);
    assert_eq!(usize::from(VarNum::from(300usize)), 300);
}

#[test]
fn nni_unexpected_length() {
    let mut data = Bytes::from(&[1, 2, 3][..]);
    assert_eq!(
        NonNegativeInteger::decode(&mut data).unwrap_err(),
        TlvError::UnexpectedLength
    );
    let mut empty = Bytes::new();
    assert_eq!(
        NonNegativeInteger::decode(&mut empty).unwrap_err(),
        TlvError::UnexpectedLength
    );
}

#[test]
fn fixed_width_integers_round_trip() {
    let encoded = 0x1234u16.encode();
    assert_eq!(&encoded[..], &[0x12, 0x34]);
    assert_eq!(0x1234u16.size(), 2);
    let mut cursor = encoded.clone();
    assert_eq!(u16::decode(&mut cursor).unwrap(), 0x1234);

    let encoded = 0xDEAD_BEEFu32.encode();
    assert_eq!(&encoded[..], &[0xDE, 0xAD, 0xBE, 0xEF]);
    let mut cursor = encoded.clone();
    assert_eq!(u32::decode(&mut cursor).unwrap(), 0xDEAD_BEEF);

    let encoded = 0x0102_0304_0506_0708u64.encode();
    let mut cursor = encoded.clone();
    assert_eq!(u64::decode(&mut cursor).unwrap(), 0x0102_0304_0506_0708);

    let encoded = 0x7Fu8.encode();
    let mut cursor = encoded.clone();
    assert_eq!(u8::decode(&mut cursor).unwrap(), 0x7F);

    let encoded = (-2i8).encode();
    assert_eq!(&encoded[..], &[0xFE]);
    let mut cursor = encoded.clone();
    assert_eq!(i8::decode(&mut cursor).unwrap(), -2);

    let encoded = (-2i16).encode();
    assert_eq!(&encoded[..], &[0xFF, 0xFE]);
    let mut cursor = encoded.clone();
    assert_eq!(i16::decode(&mut cursor).unwrap(), -2);

    let encoded = (-2i32).encode();
    let mut cursor = encoded.clone();
    assert_eq!(i32::decode(&mut cursor).unwrap(), -2);

    let encoded = (-2i64).encode();
    let mut cursor = encoded.clone();
    assert_eq!(i64::decode(&mut cursor).unwrap(), -2);
}

#[test]
fn fixed_width_integers_truncated() {
    let mut data = Bytes::from(&[1][..]);
    assert_eq!(
        u16::decode(&mut data).unwrap_err(),
        TlvError::UnexpectedEndOfStream
    );
    let mut data = Bytes::from(&[1, 2, 3][..]);
    assert_eq!(
        u32::decode(&mut data).unwrap_err(),
        TlvError::UnexpectedEndOfStream
    );
    let mut data = Bytes::from(&[1, 2, 3, 4, 5, 6, 7][..]);
    assert_eq!(
        u64::decode(&mut data).unwrap_err(),
        TlvError::UnexpectedEndOfStream
    );
    let mut data = Bytes::new();
    assert_eq!(
        u8::decode(&mut data).unwrap_err(),
        TlvError::UnexpectedEndOfStream
    );
    let mut data = Bytes::from(&[1, 2, 3][..]);
    assert_eq!(
        i32::decode(&mut data).unwrap_err(),
        TlvError::UnexpectedEndOfStream
    );
}

#[test]
fn raw_bytes_consume_everything() {
    let mut data = Bytes::from(&[1, 2, 3, 4][..]);
    let taken = Bytes::decode(&mut data).unwrap();
    assert_eq!(&taken[..], &[1, 2, 3, 4]);
    assert_eq!(data.remaining(), 0);

    let value = Bytes::from(&[9, 9][..]);
    assert_eq!(value.size(), 2);
    assert_eq!(value.encode(), value);
}

#[test]
fn unit_value_is_empty() {
    let encoded = ().encode();
    assert_eq!(encoded.len(), 0);
    assert_eq!(().size(), 0);
    let mut data = Bytes::from(&[5, 6][..]);
    <()>::decode(&mut data).unwrap();
    assert_eq!(data.remaining(), 2);
}

#[test]
fn byte_arrays_fixed_width() {
    let arr: [u8; 3] = [7, 8, 9];
    let encoded = arr.encode();
    assert_eq!(&encoded[..], &[7, 8, 9]);
    assert_eq!(arr.size(), 3);

    let mut data = Bytes::from(&[7, 8, 9, 10][..]);
    let decoded = <[u8; 3]>::decode(&mut data).unwrap();
    assert_eq!(decoded, [7, 8, 9]);
    assert_eq!(data.remaining(), 1);

    let mut short = Bytes::from(&[7, 8][..]);
    assert_eq!(
        <[u8; 3]>::decode(&mut short).unwrap_err(),
        TlvError::UnexpectedEndOfStream
    );
}

#[test]
fn vec_of_integers_propagates_errors() {
    // a trailing half record is a malformed stream, not a clean end
    let mut data = Bytes::from(&[0, 1, 0, 2, 9][..]);
    assert_eq!(
        Vec::<u16>::decode(&mut data).unwrap_err(),
        TlvError::UnexpectedEndOfStream
    );
}

#[test]
fn vec_of_integers_round_trip() {
    let values: Vec<u16> = vec![1, 2, 515];
    let encoded = values.encode();
    assert_eq!(values.size(), encoded.len());
    assert_eq!(&encoded[..], &[0, 1, 0, 2, 2, 3]);
    let mut cursor = encoded.clone();
    assert_eq!(Vec::<u16>::decode(&mut cursor).unwrap(), values);
    assert_eq!(cursor.remaining(), 0);

    let empty: Vec<u16> = Vec::new();
    assert_eq!(empty.size(), 0);
    assert_eq!(empty.encode().len(), 0);
}

#[test]
fn vec_of_units_stops_without_progress() {
    // a value that consumes nothing cannot make progress: the sequence ends
    // with it instead of spinning forever
    let mut data = Bytes::from(&[1, 2, 3][..]);
    let decoded = Vec::<()>::decode(&mut data).unwrap();
    assert_eq!(decoded.len(), 1);
    assert_eq!(data.remaining(), 3);
}

#[test]
fn option_of_integer() {
    // too short for a u32: absent, nothing consumed
    let mut data = Bytes::from(&[1, 2][..]);
    let opt = Option::<u32>::decode(&mut data).unwrap();
    assert!(opt.is_none());
    assert_eq!(data.remaining(), 2);

    let mut data = Bytes::from(&[1, 2, 3, 4, 5][..]);
    let opt = Option::<u32>::decode(&mut data).unwrap();
    assert_eq!(opt.unwrap(), 0x0102_0304);
    assert_eq!(data.remaining(), 1);

    let present = Some(0x0102_0304u32);
    assert_eq!(present.size(), 4);
    assert_eq!(&present.encode()[..], &[1, 2, 3, 4]);
    let absent: Option<u32> = None;
    assert_eq!(absent.size(), 0);
    assert_eq!(absent.encode().len(), 0);
}

#[test]
fn criticality_rule() {
    // below 32: critical whatever the parity
    assert!(tlv_typ_critical(0));
    assert!(tlv_typ_critical(7));
    assert!(tlv_typ_critical(31));
    // 32 and above: parity decides
    assert!(!tlv_typ_critical(32));
    assert!(tlv_typ_critical(33));
    assert!(!tlv_typ_critical(126));
    assert!(tlv_typ_critical(127));
}

#[test]
fn record_header_parse() {
    // type 7, length 3: a two-octet header
    let probe = Bytes::from(&[7, 3, 1, 2, 3][..]);
    assert_eq!(parse_record_header(&probe, 7).unwrap(), (2, 3));
    // the probe itself is not consumed
    assert_eq!(probe.remaining(), 5);

    // wide type and length fields count toward the header size
    let probe = Bytes::from(&[0xFD, 1, 1, 0xFD, 2, 0][..]);
    assert_eq!(parse_record_header(&probe, 0x101).unwrap(), (6, 0x200));

    let probe = Bytes::from(&[9, 3][..]);
    assert_eq!(
        parse_record_header(&probe, 7).unwrap_err(),
        TlvError::TypeMismatch {
            expected: 7,
            found: 9
        }
    );

    let probe = Bytes::from(&[0xFD][..]);
    assert_eq!(
        parse_record_header(&probe, 7).unwrap_err(),
        TlvError::UnexpectedEndOfStream
    );

    // the type matches but the length field is cut off
    let probe = Bytes::from(&[7][..]);
    assert_eq!(
        parse_record_header(&probe, 7).unwrap_err(),
        TlvError::UnexpectedEndOfStream
    );
}
