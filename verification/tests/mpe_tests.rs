use dildonica::midi::MidiMessage;
use dildonica::mpe::MPEKeyboard;

#[test]
fn configuration_handshake_announces_zone_and_ranges() {
    let keyboard = MPEKeyboard::new();
    let msgs = keyboard.send_mpe_configuration();
    // 3 selector messages, 3 for the master, 3 for each of 14 members
    assert_eq!(msgs.len(), 3 + 3 + 14 * 3);
    assert_eq!(msgs[0], MidiMessage { status: 0xB0, data1: 0x64, data2: Some(0x06) });
    assert_eq!(msgs[1], MidiMessage { status: 0xB0, data1: 0x65, data2: Some(0x00) });
    assert_eq!(msgs[2], MidiMessage { status: 0xB0, data1: 0x06, data2: Some(0x0E) });
    // master channel 1, pitch bend range 2 semitones
    assert_eq!(msgs[3], MidiMessage { status: 0xB1, data1: 0x64, data2: Some(0x00) });
    assert_eq!(msgs[4], MidiMessage { status: 0xB1, data1: 0x65, data2: Some(0x00) });
    assert_eq!(msgs[5], MidiMessage { status: 0xB1, data1: 0x06, data2: Some(2) });
    // first member channel 2, per-note range 48 semitones
    assert_eq!(msgs[6], MidiMessage { status: 0xB2, data1: 0x64, data2: Some(0x00) });
    assert_eq!(msgs[8], MidiMessage { status: 0xB2, data1: 0x06, data2: Some(48) });
    // last member channel 15
    assert_eq!(msgs[47], MidiMessage { status: 0xBF, data1: 0x06, data2: Some(48) });
}

#[test]
fn pitch_bend_range_is_three_registered_parameter_messages() {
    let keyboard = MPEKeyboard::new();
    let msgs = keyboard.send_pitch_bend_range(5, 12);
    assert_eq!(
        msgs,
        vec![
            MidiMessage { status: 0xB5, data1: 0x64, data2: Some(0) },
            MidiMessage { status: 0xB5, data1: 0x65, data2: Some(0) },
            MidiMessage { status: 0xB5, data1: 0x06, data2: Some(12) },
        ]
    );
}

#[test]
fn key_press_takes_the_next_pool_channel() {
    let mut keyboard = MPEKeyboard::new();
    let msgs = keyboard.handle_key_press(60, 100, 0);
    assert_eq!(msgs, vec![MidiMessage { status: 0x92, data1: 60, data2: Some(100) }]);
    let msgs = keyboard.handle_key_press(64, 90, 0);
    assert_eq!(msgs, vec![MidiMessage { status: 0x93, data1: 64, data2: Some(90) }]);
}

#[test]
fn key_press_with_pressure_adds_initial_aftertouch() {
    let mut keyboard = MPEKeyboard::new();
    let msgs = keyboard.handle_key_press(60, 100, 55);
    assert_eq!(
        msgs,
        vec![
            MidiMessage { status: 0x92, data1: 60, data2: Some(100) },
            MidiMessage { status: 0xD2, data1: 55, data2: None },
        ]
    );
}

#[test]
fn channel_pool_wraps_round_robin() {
    let mut keyboard = MPEKeyboard::new();
    for note in 0..14u8 {
        keyboard.handle_key_press(note, 100, 0);
    }
    // all 14 member channels used; the 15th press wraps back to channel 2
    let msgs = keyboard.handle_key_press(100, 100, 0);
    assert_eq!(msgs[0].status, 0x92);
}

#[test]
fn release_emits_velocity_zero_note_on_and_frees_the_note() {
    let mut keyboard = MPEKeyboard::new();
    keyboard.handle_key_press(60, 100, 0);
    let msgs = keyboard.handle_key_release(60, 64);
    assert_eq!(msgs, vec![MidiMessage { status: 0x92, data1: 60, data2: Some(0) }]);
    // a second release of the same note is a no-op
    let msgs = keyboard.handle_key_release(60, 64);
    assert_eq!(msgs, vec![]);
}

#[test]
fn release_of_unknown_note_is_a_no_op() {
    let mut keyboard = MPEKeyboard::new();
    assert_eq!(keyboard.handle_key_release(42, 64), vec![]);
}

#[test]
fn pressure_change_goes_to_the_assigned_channel() {
    let mut keyboard = MPEKeyboard::new();
    keyboard.handle_key_press(60, 100, 0);
    let msgs = keyboard.handle_key_pressure_change(60, 77);
    assert_eq!(msgs, vec![MidiMessage { status: 0xD2, data1: 77, data2: None }]);
    assert_eq!(keyboard.handle_key_pressure_change(61, 77), vec![]);
}

#[test]
fn inbound_messages_are_consumed_without_disturbing_assignments() {
    let mut keyboard = MPEKeyboard::new();
    keyboard.handle_key_press(60, 100, 0);
    keyboard.receive_midi_message(&[0xB0, 0x64, 0x07]);
    keyboard.receive_midi_message(&[0xB0, 0x65]);
    keyboard.receive_midi_message(&[0x90, 0x3C, 0x40]);
    // the note is still assigned to its channel
    let msgs = keyboard.handle_key_pressure_change(60, 10);
    assert_eq!(msgs, vec![MidiMessage { status: 0xD2, data1: 10, data2: None }]);
}
