use dildonica::zone_config::{
    decode_zone_configs, encode_zone_configs, DeviceConfigError, DildonicaZoneConfig,
    ZONE_CONFIG_SIZE,
};

fn sample_record() -> DildonicaZoneConfig {
    DildonicaZoneConfig {
        enabled: true,
        midi_control: 17,
        cycle_count_begin: 1234,
        cycle_count_end: 98765,
        comp_thresh_lo: 100,
        comp_thresh_hi: 4000,
    }
}

#[test]
fn record_encodes_to_fixed_layout() {
    let bytes = sample_record().to_bytes();
    assert_eq!(bytes.len(), ZONE_CONFIG_SIZE);
    assert_eq!(bytes[0], 1);
    assert_eq!(bytes[1], 17);
    assert_eq!(&bytes[2..4], &[0, 0]);
    assert_eq!(&bytes[4..8], &1234u32.to_le_bytes());
    assert_eq!(&bytes[8..12], &98765u32.to_le_bytes());
    assert_eq!(&bytes[12..16], &100u32.to_le_bytes());
    assert_eq!(&bytes[16..20], &4000u32.to_le_bytes());
}

#[test]
fn disabled_record_encodes_zero_flag() {
    let mut record = sample_record();
    record.enabled = false;
    assert_eq!(record.to_bytes()[0], 0);
}

#[test]
fn decode_of_encode_gives_the_record_back() {
    let record = sample_record();
    let decoded = DildonicaZoneConfig::from_bytes(&record.to_bytes()).unwrap();
    assert_eq!(decoded, record);

    let extremes = DildonicaZoneConfig {
        enabled: false,
        midi_control: 255,
        cycle_count_begin: 0,
        cycle_count_end: u32::MAX,
        comp_thresh_lo: u32::MAX,
        comp_thresh_hi: 0,
    };
    assert_eq!(DildonicaZoneConfig::from_bytes(&extremes.to_bytes()).unwrap(), extremes);
}

#[test]
fn padding_bytes_are_ignored_on_decode() {
    let mut bytes = sample_record().to_bytes();
    bytes[2] = 0xAB;
    bytes[3] = 0xCD;
    assert_eq!(DildonicaZoneConfig::from_bytes(&bytes).unwrap(), sample_record());
}

#[test]
fn short_record_fails_with_data_too_short() {
    let bytes = vec![0u8; ZONE_CONFIG_SIZE - 1];
    assert_eq!(DildonicaZoneConfig::from_bytes(&bytes), Err(DeviceConfigError::DataTooShort));
}

#[test]
fn array_roundtrips_through_one_buffer() {
    let mut records = Vec::new();
    for zone in 0..8u32 {
        records.push(DildonicaZoneConfig {
            enabled: zone % 2 == 0,
            midi_control: zone as u8,
            cycle_count_begin: 1000 + zone,
            cycle_count_end: 10000 + zone,
            comp_thresh_lo: 100 + zone,
            comp_thresh_hi: 4000 + zone,
        });
    }
    let buffer = encode_zone_configs(&records);
    assert_eq!(buffer.len(), ZONE_CONFIG_SIZE * 8);
    let decoded = decode_zone_configs(&buffer, 8).unwrap();
    assert_eq!(decoded, records);
}

#[test]
fn array_length_must_match_exactly() {
    let records = vec![DildonicaZoneConfig::default(); 8];
    let buffer = encode_zone_configs(&records);
    assert!(decode_zone_configs(&buffer, 7).is_err());
    assert!(decode_zone_configs(&buffer[..buffer.len() - 1], 8).is_err());
    assert!(decode_zone_configs(&buffer[..buffer.len() - 5], 8).is_err());
}

#[test]
fn length_not_a_multiple_of_record_size_never_decodes() {
    for len in [1usize, 19, 21, 159] {
        let buffer = vec![0u8; len];
        for zones in 0..10usize {
            assert_eq!(
                decode_zone_configs(&buffer, zones),
                Err(DeviceConfigError::DataTooShort)
            );
        }
    }
}

#[test]
fn default_record_matches_factory_values() {
    let record = DildonicaZoneConfig::default();
    assert!(record.enabled);
    assert_eq!(record.midi_control, 0);
    assert_eq!(record.cycle_count_begin, 1000);
    assert_eq!(record.cycle_count_end, 10000);
    assert_eq!(record.comp_thresh_lo, 100);
    assert_eq!(record.comp_thresh_hi, 4000);
}
