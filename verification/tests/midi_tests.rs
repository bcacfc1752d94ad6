use dildonica::midi::{
    ControlChangeConfig, MidiConfig, MidiMessage, MidiOutputMethod, MidiProcessor, MusicalScale,
    NoteConfig,
};

fn cc_config(base: u8, slope: i64) -> MidiConfig {
    MidiConfig {
        method: MidiOutputMethod::ControlChange,
        control_change_config: ControlChangeConfig { base_control_number: base, control_slope: slope },
        ..MidiConfig::default()
    }
}

fn note_config(threshold: i64, velocity_slope: i64) -> MidiConfig {
    MidiConfig {
        method: MidiOutputMethod::Notes,
        note_config: NoteConfig {
            base_note: 60,
            threshold,
            velocity_slope,
            scale: MusicalScale::Chromatic,
        },
        ..MidiConfig::default()
    }
}

#[test]
fn control_change_saturates_at_full_deflection() {
    // normalized -0.5 with slope 20 clamps to 1.0, so the wire value is 127
    let mut processor = MidiProcessor::new();
    let msgs = processor.process_sample(0, -500_000, &cc_config(41, 20_000_000));
    assert_eq!(msgs, vec![MidiMessage { status: 0xB0, data1: 41, data2: Some(127) }]);
}

#[test]
fn control_change_scales_and_rounds() {
    // |0.01| * 20 = 0.2 of full scale, 127 * 0.2 rounds to 25
    let mut processor = MidiProcessor::new();
    let msgs = processor.process_sample(2, 10_000, &cc_config(41, 20_000_000));
    assert_eq!(msgs, vec![MidiMessage { status: 0xB0, data1: 43, data2: Some(25) }]);
}

#[test]
fn control_change_number_is_base_plus_zone_wrapping() {
    let mut processor = MidiProcessor::new();
    let msgs = processor.process_sample(10, 0, &cc_config(250, 20_000_000));
    assert_eq!(msgs.len(), 1);
    assert_eq!(msgs[0].data1, 4);
    assert_eq!(msgs[0].data2, Some(0));
}

#[test]
fn note_mode_walks_on_aftertouch_off() {
    // threshold 0.1, magnitudes 0.05, 0.2, 0.3, 0.05
    let mut processor = MidiProcessor::new();
    let config = note_config(100_000, 100_000_000);
    let zone = 1;
    let note = 61;

    let msgs = processor.process_sample(zone, 50_000, &config);
    assert_eq!(msgs, vec![]);

    let msgs = processor.process_sample(zone, 200_000, &config);
    assert_eq!(msgs, vec![MidiMessage { status: 0x90, data1: note, data2: Some(20) }]);

    let msgs = processor.process_sample(zone, -300_000, &config);
    assert_eq!(msgs, vec![MidiMessage { status: 0xA0, data1: note, data2: Some(30) }]);

    let msgs = processor.process_sample(zone, 50_000, &config);
    assert_eq!(msgs, vec![MidiMessage { status: 0x80, data1: note, data2: Some(0) }]);

    let msgs = processor.process_sample(zone, 50_000, &config);
    assert_eq!(msgs, vec![]);
}

#[test]
fn note_mode_velocity_is_clamped_to_midi_range() {
    let mut processor = MidiProcessor::new();
    // magnitude 5.0 with slope 100 would give 500; clamps to 127
    let msgs = processor.process_sample(0, 5_000_000, &note_config(100_000, 100_000_000));
    assert_eq!(msgs[0].data2, Some(127));

    // magnitude just over threshold with a tiny slope clamps up to 1
    let mut processor = MidiProcessor::new();
    let msgs = processor.process_sample(0, 200_000, &note_config(100_000, 1));
    assert_eq!(msgs[0].data2, Some(1));
}

#[test]
fn note_mode_ignores_out_of_range_zones() {
    let mut processor = MidiProcessor::new();
    let msgs = processor.process_sample(8, 5_000_000, &note_config(100_000, 100_000_000));
    assert_eq!(msgs, vec![]);
    let msgs = processor.process_sample(1000, 5_000_000, &note_config(100_000, 100_000_000));
    assert_eq!(msgs, vec![]);
}

#[test]
fn zones_quantize_to_the_selected_scale() {
    assert_eq!(MusicalScale::Chromatic.map_zone_to_note(60, 3), 63);
    assert_eq!(MusicalScale::Major.map_zone_to_note(60, 2), 64);
    // zone 8 on a 7-interval scale wraps into the next octave
    assert_eq!(MusicalScale::Major.map_zone_to_note(60, 8), 74);
    assert_eq!(MusicalScale::Pentatonic.map_zone_to_note(60, 5), 72);
    // the result clamps to the MIDI note ceiling
    assert_eq!(MusicalScale::Chromatic.map_zone_to_note(125, 7), 127);
}

#[test]
fn scales_expose_their_intervals_and_names() {
    assert_eq!(MusicalScale::Major.intervals(), vec![0, 2, 4, 5, 7, 9, 11]);
    assert_eq!(MusicalScale::Blues.intervals(), vec![0, 3, 5, 6, 7, 10]);
    assert_eq!(MusicalScale::WholeTone.name(), "Whole Tone");
    assert_eq!(MusicalScale::Major.name(), "Major");
    let all = MusicalScale::all_scales();
    assert_eq!(all.len(), 12);
    assert_eq!(all[0], MusicalScale::Chromatic);
    assert_eq!(all[11], MusicalScale::Diminished);
}

#[test]
fn default_config_matches_documented_values() {
    let config = MidiConfig::default();
    assert_eq!(config.method, MidiOutputMethod::ControlChange);
    assert_eq!(config.control_change_config.base_control_number, 41);
    assert_eq!(config.control_change_config.control_slope, 20_000_000);
    assert_eq!(config.note_config.base_note, 60);
    assert_eq!(config.note_config.threshold, 100_000);
    assert_eq!(config.note_config.velocity_slope, 100_000_000);
    assert_eq!(config.note_config.scale, MusicalScale::Chromatic);
}

#[test]
fn messages_serialize_to_wire_bytes() {
    let three = MidiMessage::control_change(45, 100);
    assert_eq!(three.to_bytes(), vec![0xB0, 45, 100]);
    let two = MidiMessage { status: 0xD2, data1: 55, data2: None };
    assert_eq!(two.to_bytes(), vec![0xD2, 55]);
    assert_eq!(MidiMessage::note_on(60, 90).to_bytes(), vec![0x90, 60, 90]);
    assert_eq!(MidiMessage::note_off(60).to_bytes(), vec![0x80, 60, 0]);
    assert_eq!(MidiMessage::key_pressure(60, 33).to_bytes(), vec![0xA0, 60, 33]);
}
