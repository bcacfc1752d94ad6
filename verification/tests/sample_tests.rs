use dildonica::sample::{Sample, SampleError};

#[test]
fn decode_valid_packet() {
    // timestamp 1000, value 500, zone 3, little-endian
    let data = [0xE8u8, 0x03, 0x00, 0x00, 0xF4, 0x01, 0x00, 0x00, 0x03];
    let s = Sample::from_bytes(&data).unwrap();
    assert_eq!(s.timestamp, 1000);
    assert_eq!(s.value, Some(500));
    assert_eq!(s.zone, 3);
}

#[test]
fn decode_negative_timestamp_and_value() {
    let mut data = Vec::new();
    data.extend_from_slice(&(-123456i32).to_le_bytes());
    data.extend_from_slice(&(-42i32).to_le_bytes());
    data.push(7);
    let s = Sample::from_bytes(&data).unwrap();
    assert_eq!(s.timestamp, -123456);
    assert_eq!(s.value, Some(-42));
    assert_eq!(s.zone, 7);
}

#[test]
fn zero_value_decodes_to_no_reading() {
    let data = [0x01u8, 0x00, 0x00, 0x00, 0x00, 0x00, 0x00, 0x00, 0x00];
    let s = Sample::from_bytes(&data).unwrap();
    assert_eq!(s.value, None);
}

#[test]
fn short_buffers_fail_with_data_too_short() {
    for len in 0..9usize {
        let data = vec![0u8; len];
        assert_eq!(Sample::from_bytes(&data), Err(SampleError::DataTooShort));
    }
}

#[test]
fn zone_at_or_beyond_count_fails_with_invalid_zone() {
    let mut data = [0u8; 9];
    data[8] = 8;
    assert_eq!(Sample::from_bytes(&data), Err(SampleError::InvalidZone));
    data[8] = 255;
    assert_eq!(Sample::from_bytes(&data), Err(SampleError::InvalidZone));
}

#[test]
fn decode_then_reencode_roundtrips_the_packet() {
    let packets: [[u8; 9]; 3] = [
        [0xE8, 0x03, 0x00, 0x00, 0xF4, 0x01, 0x00, 0x00, 0x03],
        [0xFF, 0xFF, 0xFF, 0xFF, 0x2A, 0x00, 0x00, 0x00, 0x00],
        [0x00, 0x00, 0x00, 0x80, 0x00, 0x00, 0x00, 0x00, 0x07],
    ];
    for packet in packets.iter() {
        let s = Sample::from_bytes(packet).unwrap();
        assert_eq!(s.to_bytes(), packet.to_vec());
    }
}

#[test]
fn trailing_bytes_are_ignored_and_dropped_by_reencoding() {
    let data = [0xE8u8, 0x03, 0x00, 0x00, 0xF4, 0x01, 0x00, 0x00, 0x03, 0xAA, 0xBB];
    let s = Sample::from_bytes(&data).unwrap();
    assert_eq!(s.to_bytes(), data[0..9].to_vec());
}

#[test]
fn absent_value_encodes_as_zero_sentinel() {
    let s = Sample { timestamp: 77, zone: 2, value: None };
    let bytes = s.to_bytes();
    assert_eq!(&bytes[4..8], &[0, 0, 0, 0]);
    assert_eq!(bytes[8], 2);
}
