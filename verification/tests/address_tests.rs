use radix_engine::types::{radix_token, Address, Mid, ParseAddressError, H256};

#[test]
fn test_from_to_string() {
    let s = "037ac8066e51cd0d6b320c338d5abbcdbcca25572b6b3e11ee944a";
    let a = Address::from_str(s).unwrap();
    assert_eq!(a.to_string(), s);
}

#[test]
fn address_round_trips_through_bytes() {
    let a = radix_token();
    let bytes = a.to_vec();
    assert_eq!(bytes.len(), 27);
    assert_eq!(bytes[0], 3);
    let b = Address::try_from(bytes.as_slice()).unwrap();
    assert!(a.equals(&b));
}

#[test]
fn address_rejects_bad_length() {
    let bytes = vec![3u8; 5];
    match Address::try_from(bytes.as_slice()) {
        Err(ParseAddressError::InvalidLength(n)) => assert_eq!(n, 5),
        _ => panic!("expected a length error"),
    }
}

#[test]
fn address_rejects_bad_tag() {
    let mut bytes = vec![9u8];
    bytes.extend(std::iter::repeat(0u8).take(26));
    match Address::try_from(bytes.as_slice()) {
        Err(ParseAddressError::InvalidType(t)) => assert_eq!(t, 9),
        _ => panic!("expected a tag error"),
    }
}

#[test]
fn mid_round_trips_through_bytes() {
    let hash = H256::new(vec![7u8; 32]);
    let m = Mid(hash, 42);
    let bytes = m.to_vec();
    assert_eq!(bytes.len(), 36);
    let back = Mid::try_from(bytes.as_slice()).unwrap();
    assert!(m.equals(&back));
    let rendered = m.to_string();
    let parsed = Mid::from_str(rendered.as_str()).unwrap();
    assert!(m.equals(&parsed));
    assert!(Mid::from_str("0s").is_err());
    assert!(Mid::from_str("ffff").is_err());
}
