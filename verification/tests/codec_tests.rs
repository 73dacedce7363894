use radix_engine::codec::{decode_lp, decode_u32, encode_u32, scrypto_encode_str,
    scrypto_encode_str_for_radix_engine, PutComponentStateInput, TYPE_STRING};

#[test]
fn test_serialization() {
    let obj = PutComponentStateInput { state: scrypto_encode_str("test") };
    let encoded = obj.scrypto_encode();
    let decoded = PutComponentStateInput::scrypto_decode(encoded.as_slice()).unwrap();
    let (payload, end) = decode_lp(TYPE_STRING, decoded.state.as_slice(), 0).unwrap();
    assert_eq!(end, decoded.state.len());
    assert_eq!(payload, b"test".to_vec());
}

#[test]
fn test_encode_for_radix_engine() {
    let encoded = scrypto_encode_str_for_radix_engine("abc");
    assert_eq!(vec![8, 0, 0, 0, 12, 3, 0, 0, 0, 97, 98, 99], encoded);
}

#[test]
fn decode_rejects_wrong_type_id() {
    let data = vec![13u8, 3, 0, 0, 0, 97, 98, 99];
    assert!(decode_lp(TYPE_STRING, data.as_slice(), 0).is_err());
}

#[test]
fn decode_rejects_short_buffer() {
    let data = vec![12u8, 9, 0, 0, 0, 97];
    assert!(decode_lp(TYPE_STRING, data.as_slice(), 0).is_err());
}

#[test]
fn u32_values_round_trip() {
    let mut buf = Vec::new();
    encode_u32(&mut buf, 0xdeadbeef);
    assert_eq!(buf, vec![9, 0xef, 0xbe, 0xad, 0xde]);
    let (x, end) = decode_u32(buf.as_slice(), 0).unwrap();
    assert_eq!(x, 0xdeadbeef);
    assert_eq!(end, 5);
}
