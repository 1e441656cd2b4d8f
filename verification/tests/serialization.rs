use bytesrepr::{Bytes, Error, FromBytes, ToBytes, U32_SERIALIZED_LENGTH};

#[test]
fn vec_u8_from_bytes() {
    let data: Bytes = vec![1, 2, 3, 4, 5].into();
    let data_bytes = data.to_bytes().unwrap();
    assert!(Bytes::from_bytes(&data_bytes[..U32_SERIALIZED_LENGTH / 2]).is_err());
    assert!(Bytes::from_bytes(&data_bytes[..U32_SERIALIZED_LENGTH]).is_err());
    assert!(Bytes::from_bytes(&data_bytes[..U32_SERIALIZED_LENGTH + 2]).is_err());
}

#[test]
fn should_serialize_deserialize_bytes() {
    let data: Bytes = vec![1, 2, 3, 4, 5].into();
    let serialized = data.to_bytes().expect("should serialize data");
    assert_eq!(serialized.len(), data.serialized_length());
    let (deserialized, remainder): (Bytes, &[u8]) =
        FromBytes::from_bytes(&serialized).expect("should deserialize data");
    assert_eq!(data, deserialized);
    assert!(remainder.is_empty());
    let (deserialized_owned, remainder_owned): (Bytes, Vec<u8>) =
        FromBytes::from_vec(serialized.clone()).expect("should deserialize data");
    assert_eq!(data, deserialized_owned);
    assert!(remainder_owned.is_empty());
    let reserialized = data.clone().into_bytes().expect("should serialize data");
    assert_eq!(reserialized, serialized);
}

#[test]
fn should_fail_to_serialize_deserialize_malicious_bytes() {
    let data: Bytes = vec![1, 2, 3, 4, 5].into();
    let mut serialized = data.to_bytes().expect("should serialize data");
    serialized = serialized[..serialized.len() - 1].to_vec();
    let res: Result<(_, &[u8]), Error> = Bytes::from_bytes(&serialized);
    assert_eq!(res.unwrap_err(), Error::EarlyEndOfStream);
}

#[test]
fn should_serialize_deserialize_bytes_and_keep_rem() {
    let data: Bytes = vec![1, 2, 3, 4, 5].into();
    let expected_rem: Vec<u8> = vec![6, 7, 8, 9, 10];
    let mut serialized = data.to_bytes().expect("should serialize data");
    serialized.extend(&expected_rem);
    let (deserialized, rem): (Bytes, &[u8]) =
        FromBytes::from_bytes(&serialized).expect("should deserialize data");
    assert_eq!(data, deserialized);
    assert_eq!(&rem, &expected_rem);
}

#[test]
fn encoded_form_is_length_prefix_then_payload() {
    let data: Bytes = vec![1, 2, 3, 4, 5].into();
    let serialized = data.to_bytes().expect("should serialize data");
    assert_eq!(serialized, vec![0x05, 0x00, 0x00, 0x00, 0x01, 0x02, 0x03, 0x04, 0x05]);
}

#[test]
fn every_strict_prefix_fails_with_early_end_of_stream() {
    let data: Bytes = vec![1, 2, 3, 4, 5].into();
    let serialized = data.to_bytes().expect("should serialize data");
    assert_eq!(serialized.len(), 9);
    for k in 0..serialized.len() {
        let res: Result<(Bytes, &[u8]), Error> = Bytes::from_bytes(&serialized[..k]);
        assert_eq!(res.unwrap_err(), Error::EarlyEndOfStream);
        let res: Result<(Bytes, Vec<u8>), Error> = Bytes::from_vec(serialized[..k].to_vec());
        assert_eq!(res.unwrap_err(), Error::EarlyEndOfStream);
    }
}

#[test]
fn decode_returns_appended_suffix_as_remainder() {
    let data: Bytes = vec![1, 2, 3, 4, 5].into();
    let mut serialized = data.to_bytes().expect("should serialize data");
    serialized.extend(vec![6, 7, 8, 9, 10]);
    let (deserialized, rem): (Bytes, &[u8]) =
        Bytes::from_bytes(&serialized).expect("should deserialize data");
    assert_eq!(deserialized, data);
    assert_eq!(rem, &[6, 7, 8, 9, 10]);
    let (deserialized, rem): (Bytes, Vec<u8>) =
        Bytes::from_vec(serialized.clone()).expect("should deserialize data");
    assert_eq!(deserialized, data);
    assert_eq!(rem, vec![6, 7, 8, 9, 10]);
}

#[test]
fn equal_values_encode_identically_and_vice_versa() {
    let first: Bytes = vec![9, 8, 7].into();
    let second: Bytes = vec![9, 8, 7].into();
    let third: Bytes = vec![9, 8].into();
    assert_eq!(first, second);
    assert_eq!(first.to_bytes().unwrap(), second.to_bytes().unwrap());
    assert_ne!(first, third);
    assert_ne!(first.to_bytes().unwrap(), third.to_bytes().unwrap());
}

#[test]
fn serialized_length_matches_encoded_length() {
    for payload in [vec![], vec![42], vec![1, 2, 3, 4, 5, 6, 7]] {
        let data: Bytes = payload.into();
        let serialized = data.to_bytes().expect("should serialize data");
        assert_eq!(serialized.len(), data.serialized_length());
        assert_eq!(data.serialized_length(), U32_SERIALIZED_LENGTH + data.len());
    }
}

#[test]
fn empty_container_roundtrips() {
    let data = Bytes::new();
    assert!(data.is_empty());
    assert_eq!(data.len(), 0);
    let serialized = data.to_bytes().expect("should serialize data");
    assert_eq!(serialized, vec![0, 0, 0, 0]);
    let (deserialized, rem): (Bytes, &[u8]) =
        Bytes::from_bytes(&serialized).expect("should deserialize data");
    assert_eq!(deserialized, data);
    assert!(rem.is_empty());
}

#[test]
fn accessors_expose_the_contained_bytes() {
    let data: Bytes = vec![10, 20, 30].into();
    assert_eq!(data.inner_bytes(), &vec![10, 20, 30]);
    assert_eq!(data.as_slice(), &[10, 20, 30]);
    assert_eq!(data.len(), 3);
    assert!(!data.is_empty());
    let back: Vec<u8> = data.into();
    assert_eq!(back, vec![10, 20, 30]);
    assert_eq!(Bytes::default(), Bytes::new());
    let from_slice = Bytes::from(&[10u8, 20, 30][..]);
    assert_eq!(from_slice.as_slice(), &[10, 20, 30]);
}

#[test]
fn ordering_is_structural_over_the_bytes() {
    let short: Bytes = vec![1, 2].into();
    let longer: Bytes = vec![1, 2, 3].into();
    let bigger: Bytes = vec![2].into();
    assert!(short < longer);
    assert!(longer < bigger);
    assert_eq!(short.cmp(&short), std::cmp::Ordering::Equal);
}

#[test]
fn u32_encodes_little_endian() {
    let value: u32 = 0xdead_beef;
    let serialized = value.to_bytes().expect("should serialize u32");
    assert_eq!(serialized, vec![0xef, 0xbe, 0xad, 0xde]);
    assert_eq!(serialized.len(), value.serialized_length());
    assert_eq!(value.serialized_length(), U32_SERIALIZED_LENGTH);
    let reserialized = value.into_bytes().expect("should serialize u32");
    assert_eq!(reserialized, serialized);
}

#[test]
fn u32_decodes_and_keeps_remainder() {
    let stream = vec![0xef, 0xbe, 0xad, 0xde, 0x01, 0x02];
    let (value, rem): (u32, &[u8]) =
        u32::from_bytes(&stream).expect("should deserialize u32");
    assert_eq!(value, 0xdead_beef);
    assert_eq!(rem, &[0x01, 0x02]);
    let (value, rem): (u32, Vec<u8>) =
        u32::from_vec(stream.clone()).expect("should deserialize u32");
    assert_eq!(value, 0xdead_beef);
    assert_eq!(rem, vec![0x01, 0x02]);
}

#[test]
fn u32_fails_on_short_input() {
    for k in 0..4 {
        let stream = vec![0xff; k];
        let res: Result<(u32, &[u8]), Error> = u32::from_bytes(&stream);
        assert_eq!(res.unwrap_err(), Error::EarlyEndOfStream);
        let res: Result<(u32, Vec<u8>), Error> = u32::from_vec(stream.clone());
        assert_eq!(res.unwrap_err(), Error::EarlyEndOfStream);
    }
}

#[test]
fn safe_split_at_splits_or_fails_without_panicking() {
    let buffer = vec![1u8, 2, 3, 4, 5];
    let (prefix, suffix) = bytesrepr::safe_split_at(&buffer, 2).expect("should split");
    assert_eq!(prefix, &[1, 2]);
    assert_eq!(suffix, &[3, 4, 5]);
    let (prefix, suffix) = bytesrepr::safe_split_at(&buffer, 5).expect("should split");
    assert_eq!(prefix, &[1, 2, 3, 4, 5]);
    assert!(suffix.is_empty());
    let (prefix, suffix) = bytesrepr::safe_split_at(&buffer, 0).expect("should split");
    assert!(prefix.is_empty());
    assert_eq!(suffix, &[1, 2, 3, 4, 5]);
    let res = bytesrepr::safe_split_at(&buffer, 6);
    assert_eq!(res.unwrap_err(), Error::EarlyEndOfStream);
}
