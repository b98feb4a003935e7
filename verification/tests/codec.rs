use location_store::codec::{decode, encode, fits};
use location_store::error::ServiceError;
use location_store::record::{Location, StoredRecord};

fn record(id: &str, secret: &str, lat: f64, lon: f64, time: u64) -> StoredRecord {
    StoredRecord::new(
        id.to_string(),
        secret.to_string(),
        Location::new(lat.to_bits(), lon.to_bits(), time),
    )
}

#[test]
fn encode_writes_fields_in_declared_order() {
    let r = StoredRecord::new("a".to_string(), "bc".to_string(), Location::new(1, 2, 3));
    let expected: Vec<u8> = vec![
        1, 0, 0, 0, 0, 0, 0, 0, b'a', // id
        2, 0, 0, 0, 0, 0, 0, 0, b'b', b'c', // secret
        1, 0, 0, 0, 0, 0, 0, 0, // latitude
        2, 0, 0, 0, 0, 0, 0, 0, // longitude
        3, 0, 0, 0, 0, 0, 0, 0, // time
    ];
    assert_eq!(encode(&r), expected);
}

#[test]
fn encode_writes_numbers_little_endian() {
    let r = StoredRecord::new(
        String::new(),
        String::new(),
        Location::new(0x0102030405060708, 1.0f64.to_bits(), u64::MAX),
    );
    let expected: Vec<u8> = vec![
        0, 0, 0, 0, 0, 0, 0, 0, // empty id
        0, 0, 0, 0, 0, 0, 0, 0, // empty secret
        8, 7, 6, 5, 4, 3, 2, 1, // latitude bits
        0, 0, 0, 0, 0, 0, 0xf0, 0x3f, // 1.0
        255, 255, 255, 255, 255, 255, 255, 255,
    ];
    assert_eq!(encode(&r), expected);
}

#[test]
fn encode_counts_bytes_not_characters() {
    let r = StoredRecord::new("é".to_string(), "日本".to_string(), Location::new(0, 0, 0));
    let bytes = encode(&r);
    assert_eq!(bytes.len(), 40 + 2 + 6);
    assert_eq!(&bytes[0..8], &[2, 0, 0, 0, 0, 0, 0, 0]);
    assert_eq!(&bytes[8..10], "é".as_bytes());
    assert_eq!(&bytes[10..18], &[6, 0, 0, 0, 0, 0, 0, 0]);
    assert_eq!(&bytes[18..24], "日本".as_bytes());
}

#[test]
fn round_trip_plain_record() {
    let r = record("id-1", "secret-1", 10.0, 20.0, 100);
    assert_eq!(decode(&encode(&r)), Ok(r));
}

#[test]
fn round_trip_zero_coordinates_and_time_zero() {
    let r = record("k", "s", 0.0, 0.0, 0);
    let back = decode(&encode(&r)).unwrap();
    assert_eq!(back, r);
    assert_eq!(f64::from_bits(back.location.lat_bits), 0.0);
    assert_eq!(back.location.time, 0);
}

#[test]
fn round_trip_negative_coordinates() {
    let r = record("k", "s", -33.8688, -151.2093, 1_700_000_000);
    let back = decode(&encode(&r)).unwrap();
    assert_eq!(back, r);
    assert_eq!(f64::from_bits(back.location.lat_bits), -33.8688);
    assert_eq!(f64::from_bits(back.location.lon_bits), -151.2093);
}

#[test]
fn round_trip_negative_zero_keeps_its_sign() {
    let r = record("k", "s", -0.0, 0.0, 1);
    let back = decode(&encode(&r)).unwrap();
    assert_eq!(back.location.lat_bits, (-0.0f64).to_bits());
    assert_ne!(back.location.lat_bits, back.location.lon_bits);
}

#[test]
fn round_trip_largest_finite_coordinates() {
    let r = record("k", "s", f64::MAX, f64::MIN, u64::MAX);
    let back = decode(&encode(&r)).unwrap();
    assert_eq!(back, r);
    assert_eq!(f64::from_bits(back.location.lat_bits), f64::MAX);
    assert_eq!(f64::from_bits(back.location.lon_bits), f64::MIN);
    assert_eq!(back.location.time, u64::MAX);
}

#[test]
fn round_trip_not_a_number_keeps_its_bits() {
    let r = record("k", "s", f64::NAN, f64::INFINITY, 5);
    let back = decode(&encode(&r)).unwrap();
    assert_eq!(back.location.lat_bits, f64::NAN.to_bits());
    assert_eq!(back.location.lon_bits, f64::INFINITY.to_bits());
}

#[test]
fn round_trip_empty_and_non_ascii_strings() {
    let r = record("", "", 1.5, 2.5, 3);
    assert_eq!(decode(&encode(&r)), Ok(r));
    let r = record("clé-日本", "sécret ✓", 1.5, 2.5, 3);
    assert_eq!(decode(&encode(&r)), Ok(r));
}

#[test]
fn decode_ignores_bytes_after_the_record() {
    let r = record("id", "secret", 10.0, 20.0, 100);
    let mut bytes = encode(&r);
    bytes.extend_from_slice(&[9, 9, 9]);
    assert_eq!(decode(&bytes), Ok(r));
}

#[test]
fn decode_rejects_empty_input() {
    assert_eq!(decode(&[]), Err(ServiceError::Decode));
}

#[test]
fn decode_rejects_every_proper_prefix() {
    let bytes = encode(&record("id", "secret", 10.0, 20.0, 100));
    for cut in 0..bytes.len() {
        assert_eq!(decode(&bytes[..cut]), Err(ServiceError::Decode));
    }
}

#[test]
fn decode_rejects_length_beyond_input() {
    let mut bytes = encode(&record("id", "secret", 10.0, 20.0, 100));
    bytes[0] = 200;
    assert_eq!(decode(&bytes), Err(ServiceError::Decode));
    let mut bytes = encode(&record("id", "secret", 10.0, 20.0, 100));
    for b in bytes[0..8].iter_mut() {
        *b = 255;
    }
    assert_eq!(decode(&bytes), Err(ServiceError::Decode));
}

#[test]
fn decode_rejects_invalid_utf8() {
    let mut bytes = encode(&record("id", "secret", 10.0, 20.0, 100));
    bytes[8] = 0xff;
    assert_eq!(decode(&bytes), Err(ServiceError::Decode));
    let mut bytes = encode(&record("id", "secret", 10.0, 20.0, 100));
    bytes[18] = 0xc0;
    assert_eq!(decode(&bytes), Err(ServiceError::Decode));
}

#[test]
fn decode_reads_what_another_writer_wrote() {
    let mut bytes: Vec<u8> = Vec::new();
    bytes.extend_from_slice(&3u64.to_le_bytes());
    bytes.extend_from_slice(b"abc");
    bytes.extend_from_slice(&1u64.to_le_bytes());
    bytes.extend_from_slice(b"z");
    bytes.extend_from_slice(&10.0f64.to_bits().to_le_bytes());
    bytes.extend_from_slice(&20.0f64.to_bits().to_le_bytes());
    bytes.extend_from_slice(&100u64.to_le_bytes());
    assert_eq!(decode(&bytes), Ok(record("abc", "z", 10.0, 20.0, 100)));
}

#[test]
fn different_records_have_different_images() {
    let a = encode(&record("ab", "c", 1.0, 2.0, 3));
    let b = encode(&record("a", "bc", 1.0, 2.0, 3));
    assert_ne!(a, b);
}

#[test]
fn fits_accepts_ordinary_records() {
    assert!(fits(&record("id", "secret", 10.0, 20.0, 100)));
    assert!(fits(&record("", "", 0.0, 0.0, 0)));
}
