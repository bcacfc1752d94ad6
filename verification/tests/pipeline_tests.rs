use dildonica::midi::{MidiConfig, MidiMessage};
use dildonica::pipeline::{normalized_deviation, Pipeline};
use dildonica::sample::SampleError;
use dildonica::zones::parse_zone_map;

fn packet(timestamp: i32, value: i32, zone: u8) -> Vec<u8> {
    let mut data = Vec::new();
    data.extend_from_slice(&timestamp.to_le_bytes());
    data.extend_from_slice(&value.to_le_bytes());
    data.push(zone);
    data
}

#[test]
fn end_to_end_first_sample_normalizes_to_zero() {
    // packet {timestamp 1000, zone 3, value 500} through permutation
    // [5,6,7,2,1,3,4,0]: physical zone 3 appears at position 5
    let map = parse_zone_map("5,6,7,2,1,3,4,0", 8).unwrap();
    let mut pipeline = Pipeline::new(map, 1000);
    let config = MidiConfig::default();
    let (processed, msgs) = pipeline.handle_packet(&packet(1000, 500, 3), &config).unwrap();
    assert_eq!(processed.timestamp, 1000);
    assert_eq!(processed.zone, 5);
    assert_eq!(processed.value_raw, 500_000_000);
    assert_eq!(processed.value_normalized, 0);
    // zero deviation in Control-Change mode sends value 0 on controller 41+5
    assert_eq!(msgs, vec![MidiMessage { status: 0xB0, data1: 46, data2: Some(0) }]);
}

#[test]
fn second_sample_deviates_from_the_moving_baseline() {
    let map = parse_zone_map("5,6,7,2,1,3,4,0", 8).unwrap();
    let mut pipeline = Pipeline::new(map, 1000);
    let config = MidiConfig::default();
    pipeline.handle_packet(&packet(1000, 500, 3), &config).unwrap();
    let (processed, msgs) = pipeline.handle_packet(&packet(1010, 600, 3), &config).unwrap();
    // baseline moved from 500 to 500.1; (600 - 500.1) / 500.1 = 0.19976...
    assert_eq!(processed.value_normalized, 199_760);
    // |0.19976| * slope 20 clamps to full scale
    assert_eq!(msgs, vec![MidiMessage { status: 0xB0, data1: 46, data2: Some(127) }]);
}

#[test]
fn no_reading_passes_through_as_zeroes() {
    let map = parse_zone_map("0,1,2,3,4,5,6,7", 8).unwrap();
    let mut pipeline = Pipeline::new(map, 1000);
    let config = MidiConfig::default();
    let (processed, _) = pipeline.handle_packet(&packet(5, 0, 2), &config).unwrap();
    assert_eq!(processed.value_raw, 0);
    assert_eq!(processed.value_normalized, 0);
    // the absent reading did not seed the baseline
    let (processed, _) = pipeline.handle_packet(&packet(6, 800, 2), &config).unwrap();
    assert_eq!(processed.value_normalized, 0);
}

#[test]
fn malformed_packets_are_reported_and_skipped() {
    let map = parse_zone_map("0,1,2,3,4,5,6,7", 8).unwrap();
    let mut pipeline = Pipeline::new(map, 1000);
    let config = MidiConfig::default();
    assert_eq!(
        pipeline.handle_packet(&[1, 2, 3], &config),
        Err(SampleError::DataTooShort)
    );
    assert_eq!(
        pipeline.handle_packet(&packet(0, 1, 9), &config),
        Err(SampleError::InvalidZone)
    );
    // the failed packets left the baselines untouched
    let (processed, _) = pipeline.handle_packet(&packet(0, 700, 1), &config).unwrap();
    assert_eq!(processed.value_normalized, 0);
}

#[test]
fn deviation_is_zero_against_a_zero_baseline() {
    assert_eq!(normalized_deviation(5_000_000, 0), 0);
}

#[test]
fn deviation_is_the_relative_offset_in_micro_units() {
    // (600 - 500) / 500 = 0.2
    assert_eq!(normalized_deviation(600_000_000, 500_000_000), 200_000);
    // (400 - 500) / 500 = -0.2
    assert_eq!(normalized_deviation(400_000_000, 500_000_000), -200_000);
    // a negative baseline keeps the ratio's sign convention
    assert_eq!(normalized_deviation(-600_000_000, -500_000_000), 200_000);
}
