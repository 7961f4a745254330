use ndn_tlv::{TlvDecode, TlvEncode, VarNum};

#[test]
fn simple_number() {
    let num = VarNum::from(5u8);
    let encoded = num.encode();
    assert_eq!(num.size(), 1);
    assert_eq!(&encoded[0..=0], &[5]);
    assert_eq!(VarNum::decode(&mut encoded.clone()).unwrap().value(), 5);
}

#[test]
fn low_number3() {
    let num = VarNum::from(0xFFu8);
    let encoded = num.encode();
    assert_eq!(num.size(), 3);
    assert_eq!(&encoded[0..=2], &[0xFD, 00, 0xFF]);
    assert_eq!(VarNum::decode(&mut encoded.clone()).unwrap().value(), 0xFF);
}

#[test]
fn number3() {
    let num = VarNum::from(0xFFFFu16);
    let encoded = num.encode();
    assert_eq!(num.size(), 3);
    assert_eq!(&encoded[0..=2], &[0xFD, 0xFF, 0xFF]);
    assert_eq!(
        VarNum::decode(&mut encoded.clone()).unwrap().value(),
        0xFFFF
    );
}

#[test]
fn number5() {
    let num = VarNum::from(0xFFFF_FFFFu32);
    let encoded = num.encode();
    assert_eq!(num.size(), 5);
    assert_eq!(&encoded[0..=4], &[0xFE, 0xFF, 0xFF, 0xFF, 0xFF]);
    assert_eq!(
        VarNum::decode(&mut encoded.clone()).unwrap().value(),
        0xFFFF_FFFF
    );
}

#[test]
fn number9() {
    let num = VarNum::from(0xFFFF_FFFF_FFFF_FFFFu64);
    let encoded = num.encode();
    assert_eq!(num.size(), 9);
    assert_eq!(
        &encoded[0..=8],
        &[0xFF, 0xFF, 0xFF, 0xFF, 0xFF, 0xFF, 0xFF, 0xFF, 0xFF]
    );
    assert_eq!(
        VarNum::decode(&mut encoded.clone()).unwrap().value(),
        0xFFFF_FFFF_FFFF_FFFF
    );
}
