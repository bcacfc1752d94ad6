//! The MIDI gesture translator.
//!
//! A per-zone state machine turns a normalized deviation (fixed-point
//! micro-units, see [`crate::fixed`]) into outbound MIDI messages, in one
//! of two modes chosen per call by [`MidiConfig`]: a stateless continuous
//! Control-Change mode, or a stateful Note mode (note-on/off with
//! aftertouch and musical-scale quantization). Messages are returned as
//! values; sending them over a MIDI connection is the caller's concern.

use crate::fixed::{div_trunc, FP_SCALE};
use crate::NUM_ZONES;
use vstd::math::abs;
use vstd::prelude::*;

verus! {

/// One outbound MIDI message: a status byte, one data byte, and an
/// optional second data byte (channel-pressure messages have none).
#[derive(Debug, Clone, Copy, PartialEq, Eq)]
pub struct MidiMessage {
    pub status: u8,
    pub data1: u8,
    pub data2: Option<u8>,
}

impl MidiMessage {
    /// A Control-Change message `[0xB0, control, value]`.
    pub fn control_change(control_num: u8, control_value: u8) -> (m: MidiMessage)
        ensures
            m == (MidiMessage { status: 0xB0u8, data1: control_num, data2: Some(control_value) }),
    {
        MidiMessage { status: 0xB0, data1: control_num, data2: Some(control_value) }
    }

    /// A Note-On message `[0x90, note, velocity]`.
    pub fn note_on(note: u8, velocity: u8) -> (m: MidiMessage)
        ensures
            m == (MidiMessage { status: 0x90u8, data1: note, data2: Some(velocity) }),
    {
        MidiMessage { status: 0x90, data1: note, data2: Some(velocity) }
    }

    /// A Note-Off message `[0x80, note, 0]`.
    pub fn note_off(note: u8) -> (m: MidiMessage)
        ensures
            m == (MidiMessage { status: 0x80u8, data1: note, data2: Some(0u8) }),
    {
        MidiMessage { status: 0x80, data1: note, data2: Some(0) }
    }

    /// A polyphonic Key-Pressure (aftertouch) message `[0xA0, note, pressure]`.
    pub fn key_pressure(note: u8, pressure: u8) -> (m: MidiMessage)
        ensures
            m == (MidiMessage { status: 0xA0u8, data1: note, data2: Some(pressure) }),
    {
        MidiMessage { status: 0xA0, data1: note, data2: Some(pressure) }
    }

    /// The wire bytes of the message, two or three of them.
    pub fn to_bytes(&self) -> (out: Vec<u8>)
        ensures
            out@ =~= (match self.data2 {
                Some(d2) => seq![self.status, self.data1, d2],
                None => seq![self.status, self.data1],
            }),
    {
        let mut out: Vec<u8> = Vec::new();
        out.push(self.status);
        out.push(self.data1);
        if let Some(d2) = self.data2 {
            out.push(d2);
        }
        out
    }
}

/// Which kind of MIDI output the translator produces.
#[derive(Debug, Clone, Copy, PartialEq, Eq)]
pub enum MidiOutputMethod {
    ControlChange,
    Notes,
}

/// A musical scale: an ordered list of semitone intervals within an octave.
#[derive(Debug, Clone, Copy, PartialEq, Eq)]
pub enum MusicalScale {
    Chromatic,
    Major,
    Minor,
    Pentatonic,
    Blues,
    Dorian,
    Mixolydian,
    Lydian,
    Phrygian,
    Locrian,
    WholeTone,
    Diminished,
}

/// The semitone intervals of a scale, each below 12, never empty.
pub open spec fn spec_intervals(scale: MusicalScale) -> Seq<u8> {
    match scale {
        MusicalScale::Chromatic => seq![0u8, 1u8, 2u8, 3u8, 4u8, 5u8, 6u8, 7u8, 8u8, 9u8, 10u8, 11u8],
        MusicalScale::Major => seq![0u8, 2u8, 4u8, 5u8, 7u8, 9u8, 11u8],
        MusicalScale::Minor => seq![0u8, 2u8, 3u8, 5u8, 7u8, 8u8, 10u8],
        MusicalScale::Pentatonic => seq![0u8, 2u8, 4u8, 7u8, 9u8],
        MusicalScale::Blues => seq![0u8, 3u8, 5u8, 6u8, 7u8, 10u8],
        MusicalScale::Dorian => seq![0u8, 2u8, 3u8, 5u8, 7u8, 9u8, 10u8],
        MusicalScale::Mixolydian => seq![0u8, 2u8, 4u8, 5u8, 7u8, 9u8, 10u8],
        MusicalScale::Lydian => seq![0u8, 2u8, 4u8, 6u8, 7u8, 9u8, 11u8],
        MusicalScale::Phrygian => seq![0u8, 1u8, 3u8, 5u8, 7u8, 8u8, 10u8],
        MusicalScale::Locrian => seq![0u8, 1u8, 3u8, 5u8, 6u8, 8u8, 10u8],
        MusicalScale::WholeTone => seq![0u8, 2u8, 4u8, 6u8, 8u8, 10u8],
        MusicalScale::Diminished => seq![0u8, 2u8, 3u8, 5u8, 6u8, 8u8, 9u8, 11u8],
    }
}

/// The display name of a scale.
pub open spec fn spec_scale_name(scale: MusicalScale) -> Seq<char> {
    match scale {
        MusicalScale::Chromatic => "Chromatic"@,
        MusicalScale::Major => "Major"@,
        MusicalScale::Minor => "Minor"@,
        MusicalScale::Pentatonic => "Pentatonic"@,
        MusicalScale::Blues => "Blues"@,
        MusicalScale::Dorian => "Dorian"@,
        MusicalScale::Mixolydian => "Mixolydian"@,
        MusicalScale::Lydian => "Lydian"@,
        MusicalScale::Phrygian => "Phrygian"@,
        MusicalScale::Locrian => "Locrian"@,
        MusicalScale::WholeTone => "Whole Tone"@,
        MusicalScale::Diminished => "Diminished"@,
    }
}

/// The note a zone plays: the zone index walks the scale, overflowing into
/// octaves, from the base note upward, clamped to the MIDI range.
pub open spec fn spec_map_zone_to_note(scale: MusicalScale, base_note: u8, zone: int) -> int {
    let intervals = spec_intervals(scale);
    let len = intervals.len() as int;
    let note = base_note + intervals[zone % len] + 12 * (zone / len);
    if note > 127 {
        127
    } else {
        note
    }
}

impl MusicalScale {
    /// The semitone intervals of this scale within one octave.
    pub fn intervals(&self) -> (r: Vec<u8>)
        ensures
            r@ =~= spec_intervals(*self),
            r@.len() > 0,
            forall|i: int| 0 <= i < r@.len() ==> r@[i] < 12,
    {
        match self {
            MusicalScale::Chromatic => vec![0, 1, 2, 3, 4, 5, 6, 7, 8, 9, 10, 11],
            MusicalScale::Major => vec![0, 2, 4, 5, 7, 9, 11],
            MusicalScale::Minor => vec![0, 2, 3, 5, 7, 8, 10],
            MusicalScale::Pentatonic => vec![0, 2, 4, 7, 9],
            MusicalScale::Blues => vec![0, 3, 5, 6, 7, 10],
            MusicalScale::Dorian => vec![0, 2, 3, 5, 7, 9, 10],
            MusicalScale::Mixolydian => vec![0, 2, 4, 5, 7, 9, 10],
            MusicalScale::Lydian => vec![0, 2, 4, 6, 7, 9, 11],
            MusicalScale::Phrygian => vec![0, 1, 3, 5, 7, 8, 10],
            MusicalScale::Locrian => vec![0, 1, 3, 5, 6, 8, 10],
            MusicalScale::WholeTone => vec![0, 2, 4, 6, 8, 10],
            MusicalScale::Diminished => vec![0, 2, 3, 5, 6, 8, 9, 11],
        }
    }

    /// The display name of this scale.
    pub fn name(&self) -> (r: &'static str)
        ensures
            r@ == spec_scale_name(*self),
    {
        match self {
            MusicalScale::Chromatic => "Chromatic",
            MusicalScale::Major => "Major",
            MusicalScale::Minor => "Minor",
            MusicalScale::Pentatonic => "Pentatonic",
            MusicalScale::Blues => "Blues",
            MusicalScale::Dorian => "Dorian",
            MusicalScale::Mixolydian => "Mixolydian",
            MusicalScale::Lydian => "Lydian",
            MusicalScale::Phrygian => "Phrygian",
            MusicalScale::Locrian => "Locrian",
            MusicalScale::WholeTone => "Whole Tone",
            MusicalScale::Diminished => "Diminished",
        }
    }

    /// Every scale, in display order.
    pub fn all_scales() -> (r: Vec<MusicalScale>)
        ensures
            r@ =~= seq![
                MusicalScale::Chromatic,
                MusicalScale::Major,
                MusicalScale::Minor,
                MusicalScale::Pentatonic,
                MusicalScale::Blues,
                MusicalScale::Dorian,
                MusicalScale::Mixolydian,
                MusicalScale::Lydian,
                MusicalScale::Phrygian,
                MusicalScale::Locrian,
                MusicalScale::WholeTone,
                MusicalScale::Diminished,
            ],
    {
        vec![
            MusicalScale::Chromatic,
            MusicalScale::Major,
            MusicalScale::Minor,
            MusicalScale::Pentatonic,
            MusicalScale::Blues,
            MusicalScale::Dorian,
            MusicalScale::Mixolydian,
            MusicalScale::Lydian,
            MusicalScale::Phrygian,
            MusicalScale::Locrian,
            MusicalScale::WholeTone,
            MusicalScale::Diminished,
        ]
    }

    /// Maps a zone index to its note number per [`spec_map_zone_to_note`].
    pub fn map_zone_to_note(&self, base_note: u8, zone: usize) -> (r: u8)
        ensures
            r as int == spec_map_zone_to_note(*self, base_note, zone as int),
            r <= 127,
    {
        let intervals = self.intervals();
        let len = intervals.len();
        let octave = zone / len;
        let index = zone % len;
        if octave >= 11 {
            return 127;
        }
        let note = base_note as u32 + intervals[index] as u32 + 12 * (octave as u32);
        if note > 127 {
            127
        } else {
            note as u8
        }
    }
}

/// Parameters of the Control-Change mode. The slope is in micro-units.
#[derive(Debug, Clone, Copy, PartialEq, Eq)]
pub struct ControlChangeConfig {
    pub base_control_number: u8,
    pub control_slope: i64,
}

/// Parameters of the Note mode. Threshold and slope are in micro-units.
#[derive(Debug, Clone, Copy, PartialEq, Eq)]
pub struct NoteConfig {
    pub base_note: u8,
    pub threshold: i64,
    pub velocity_slope: i64,
    pub scale: MusicalScale,
}

/// Translation-mode parameters: the mode selector and both modes' settings.
#[derive(Debug, Clone, Copy, PartialEq, Eq)]
pub struct MidiConfig {
    pub method: MidiOutputMethod,
    pub control_change_config: ControlChangeConfig,
    pub note_config: NoteConfig,
}

impl Default for MidiConfig {
    /// Control-Change output from controller 41 with a slope of 20; Note
    /// mode from middle C on the chromatic scale, threshold 0.1, velocity
    /// slope 100 (all fractions in micro-units).
    fn default() -> (c: Self)
        ensures
            c == (MidiConfig {
                method: MidiOutputMethod::ControlChange,
                control_change_config: ControlChangeConfig {
                    base_control_number: 41u8,
                    control_slope: 20_000_000i64,
                },
                note_config: NoteConfig {
                    base_note: 60u8,
                    threshold: 100_000i64,
                    velocity_slope: 100_000_000i64,
                    scale: MusicalScale::Chromatic,
                },
            }),
    {
        MidiConfig {
            method: MidiOutputMethod::ControlChange,
            control_change_config: ControlChangeConfig {
                base_control_number: 41,
                control_slope: 20_000_000,
            },
            note_config: NoteConfig {
                base_note: 60,
                threshold: 100_000,
                velocity_slope: 100_000_000,
                scale: MusicalScale::Chromatic,
            },
        }
    }
}

/// The Control-Change wire value for a normalized deviation: the magnitude
/// times the slope, clamped to one whole unit, scaled to 0..=127 with
/// rounding (half up).
pub open spec fn spec_cc_value(n: int, slope: int) -> int {
    let scaled = div_trunc(abs(n) * slope, FP_SCALE as int);
    let clamped = if scaled < 0 {
        0
    } else if scaled > FP_SCALE {
        FP_SCALE as int
    } else {
        scaled
    };
    (127 * clamped + 500_000) / (FP_SCALE as int)
}

/// The Note-mode velocity for a normalized deviation: the magnitude times
/// the slope, in whole units rounded half up, clamped to 1..=127.
pub open spec fn spec_note_velocity(n: int, slope: int) -> int {
    let prod = abs(n) * slope;
    let rounded = if prod <= 0 {
        0
    } else {
        (prod + 500_000_000_000) / 1_000_000_000_000
    };
    if rounded < 1 {
        1
    } else if rounded > 127 {
        127
    } else {
        rounded
    }
}

/// The single Control-Change message for a translation call: the control
/// number is the base number plus the zone as a wrapping 8-bit sum.
pub open spec fn spec_cc_message(zone: int, n: int, c: ControlChangeConfig) -> MidiMessage {
    MidiMessage {
        status: 0xB0u8,
        data1: ((c.base_control_number + zone) % 0x100) as u8,
        data2: Some(spec_cc_value(n, c.control_slope as int) as u8),
    }
}

/// The Note-mode step for one zone: the messages it emits and the new
/// per-zone sounding states.
///
/// Zones at or above [`NUM_ZONES`] are silently ignored. Otherwise, with
/// the magnitude above the threshold a silent zone starts sounding with a
/// Note-On and a sounding zone gets aftertouch; with the magnitude at or
/// below the threshold a sounding zone stops with a Note-Off and a silent
/// zone emits nothing.
pub open spec fn spec_note_translate(states: Seq<bool>, zone: int, n: int, c: NoteConfig) -> (Seq<
    MidiMessage,
>, Seq<bool>) {
    if zone >= NUM_ZONES {
        (seq![], states)
    } else {
        let note = spec_map_zone_to_note(c.scale, c.base_note, zone) as u8;
        if abs(n) > c.threshold {
            let vel = spec_note_velocity(n, c.velocity_slope as int) as u8;
            if !states[zone] {
                (
                    seq![MidiMessage { status: 0x90u8, data1: note, data2: Some(vel) }],
                    states.update(zone, true),
                )
            } else {
                (seq![MidiMessage { status: 0xA0u8, data1: note, data2: Some(vel) }], states)
            }
        } else {
            if states[zone] {
                (
                    seq![MidiMessage { status: 0x80u8, data1: note, data2: Some(0u8) }],
                    states.update(zone, false),
                )
            } else {
                (seq![], states)
            }
        }
    }
}

/// One full translation step: the messages emitted and the new per-zone
/// sounding states. Control-Change mode emits exactly one message and
/// leaves the states alone; Note mode steps the state machine.
pub open spec fn spec_translate(states: Seq<bool>, zone: int, n: int, config: MidiConfig) -> (Seq<
    MidiMessage,
>, Seq<bool>) {
    match config.method {
        MidiOutputMethod::ControlChange => (
            seq![spec_cc_message(zone, n, config.control_change_config)],
            states,
        ),
        MidiOutputMethod::Notes => spec_note_translate(states, zone, n, config.note_config),
    }
}

/// The stateful translator: which zones are currently sounding a note.
pub struct MidiProcessor {
    note_states: Vec<bool>,
}

impl MidiProcessor {
    /// Which zones currently sound a note, by zone index.
    pub closed spec fn spec_note_states(self) -> Seq<bool> {
        self.note_states@
    }

    /// One sounding flag per zone.
    pub open spec fn wf(self) -> bool {
        self.spec_note_states().len() == NUM_ZONES
    }

    /// A fresh translator with every zone silent.
    pub fn new() -> (r: Self)
        ensures
            r.wf(),
            forall|i: int| 0 <= i < NUM_ZONES ==> !r.spec_note_states()[i],
    {
        MidiProcessor { note_states: vec![false, false, false, false, false, false, false, false] }
    }

    /// Translates one normalized reading for one zone into MIDI messages,
    /// per [`spec_translate`], advancing the per-zone note states.
    pub fn process_sample(&mut self, zone: usize, normalized_value: i128, config: &MidiConfig) -> (
        msgs: Vec<MidiMessage>)
        requires
            old(self).wf(),
            normalized_value > i128::MIN,
        ensures
            final(self).wf(),
            msgs@ =~= spec_translate(
                old(self).spec_note_states(),
                zone as int,
                normalized_value as int,
                *config,
            ).0,
            final(self).spec_note_states() =~= spec_translate(
                old(self).spec_note_states(),
                zone as int,
                normalized_value as int,
                *config,
            ).1,
    {
        let mut msgs: Vec<MidiMessage> = Vec::new();
        match config.method {
            MidiOutputMethod::ControlChange => {
                let cc = &config.control_change_config;
                let value = cc_value(normalized_value, cc.control_slope);
                let num = ((zone % 0x100) as u8).wrapping_add(cc.base_control_number);
                proof {
                    vstd::arithmetic::div_mod::lemma_add_mod_noop(
                        zone as int,
                        cc.base_control_number as int,
                        0x100,
                    );
                    vstd::arithmetic::div_mod::lemma_small_mod(cc.base_control_number as nat, 0x100);
                }
                msgs.push(MidiMessage::control_change(num, value));
            },
            MidiOutputMethod::Notes => {
                if zone >= NUM_ZONES {
                    return msgs;
                }
                let nc = &config.note_config;
                let magnitude = if normalized_value < 0 {
                    -normalized_value
                } else {
                    normalized_value
                };
                let note = nc.scale.map_zone_to_note(nc.base_note, zone);
                if magnitude > nc.threshold as i128 {
                    let velocity = note_velocity(normalized_value, nc.velocity_slope);
                    if !self.note_states[zone] {
                        msgs.push(MidiMessage::note_on(note, velocity));
                        self.note_states.set(zone, true);
                    } else {
                        msgs.push(MidiMessage::key_pressure(note, velocity));
                    }
                } else {
                    if self.note_states[zone] {
                        msgs.push(MidiMessage::note_off(note));
                        self.note_states.set(zone, false);
                    }
                }
            },
        }
        msgs
    }
}

/// The Control-Change wire value; exact per [`spec_cc_value`].
fn cc_value(n: i128, slope: i64) -> (r: u8)
    requires
        n > i128::MIN,
    ensures
        r as int == spec_cc_value(n as int, slope as int),
{
    let magnitude = if n < 0 {
        -n
    } else {
        n
    };
    if slope <= 0 {
        proof {
            assert(abs(n as int) * (slope as int) <= 0) by (nonlinear_arith)
                requires
                    slope <= 0,
            ;
            lemma_nonpos_div_trunc(abs(n as int) * (slope as int), FP_SCALE as int);
            vstd::arithmetic::div_mod::lemma_basic_div(500_000, 1_000_000);
        }
        return 0;
    }
    if magnitude >= 1_000_000_000_000 {
        proof {
            lemma_cc_saturates(n as int, slope as int);
        }
        return 127;
    }
    proof {
        assert(0 <= (magnitude as int) * (slope as int) <= 1_000_000_000_000 * (i64::MAX as int))
            by (nonlinear_arith)
            requires
                0 <= magnitude < 1_000_000_000_000,
                0 < slope <= i64::MAX,
        ;
    }
    let prod: i128 = magnitude * (slope as i128);
    let scaled: i128 = prod / 1_000_000;
    let clamped: i128 = if scaled > 1_000_000 {
        1_000_000
    } else {
        scaled
    };
    proof {
        vstd::arithmetic::div_mod::lemma_div_pos_is_pos(prod as int, 1_000_000);
        lemma_scaled_fits_127(clamped as int);
    }
    ((127 * clamped + 500_000) / 1_000_000) as u8
}

/// The Note-mode velocity; exact per [`spec_note_velocity`].
fn note_velocity(n: i128, slope: i64) -> (r: u8)
    requires
        n > i128::MIN,
    ensures
        r as int == spec_note_velocity(n as int, slope as int),
{
    let magnitude = if n < 0 {
        -n
    } else {
        n
    };
    if slope <= 0 {
        proof {
            assert(abs(n as int) * (slope as int) <= 0) by (nonlinear_arith)
                requires
                    slope <= 0,
            ;
        }
        return 1;
    }
    if magnitude >= 127_000_000_000_000 {
        proof {
            lemma_velocity_saturates(n as int, slope as int);
        }
        return 127;
    }
    proof {
        assert(0 <= (magnitude as int) * (slope as int) <= 127_000_000_000_000 * (i64::MAX as int))
            by (nonlinear_arith)
            requires
                0 <= magnitude < 127_000_000_000_000,
                0 < slope <= i64::MAX,
        ;
    }
    let prod: i128 = magnitude * (slope as i128);
    if prod <= 0 {
        return 1;
    }
    let rounded: i128 = (prod + 500_000_000_000) / 1_000_000_000_000;
    proof {
        vstd::arithmetic::div_mod::lemma_div_pos_is_pos(prod + 500_000_000_000, 1_000_000_000_000);
    }
    if rounded > 127 {
        127
    } else if rounded < 1 {
        1
    } else {
        rounded as u8
    }
}

/// A nonpositive dividend has a nonpositive truncating quotient.
proof fn lemma_nonpos_div_trunc(a: int, b: int)
    requires
        a <= 0,
        b > 0,
    ensures
        div_trunc(a, b) <= 0,
{
    if a >= 0 {
        vstd::arithmetic::div_mod::lemma_basic_div(a, b);
    } else {
        vstd::arithmetic::div_mod::lemma_div_pos_is_pos(-a, b);
    }
}

/// With a positive slope, a magnitude of one whole unit squared or more
/// drives the Control-Change value to its ceiling of 127.
proof fn lemma_cc_saturates(n: int, slope: int)
    requires
        slope >= 1,
        abs(n) >= 1_000_000_000_000,
    ensures
        spec_cc_value(n, slope) == 127,
{
    let prod = abs(n) * slope;
    assert(prod >= 1_000_000_000_000) by (nonlinear_arith)
        requires
            slope >= 1,
            abs(n) >= 1_000_000_000_000,
            prod == abs(n) * slope,
    ;
    let scaled = div_trunc(prod, FP_SCALE as int);
    assert(scaled >= 1_000_000) by {
        vstd::arithmetic::div_mod::lemma_div_is_ordered(1_000_000_000_000, prod, 1_000_000);
        assert((1_000_000int * 1_000_000) / 1_000_000 == 1_000_000) by {
            vstd::arithmetic::div_mod::lemma_div_by_multiple(1_000_000, 1_000_000);
        }
    }
    assert((127int * 1_000_000 + 500_000) / 1_000_000 == 127) by {
        vstd::arithmetic::div_mod::lemma_div_multiples_vanish_fancy(127, 500_000, 1_000_000);
    }
}

/// With a positive slope, a magnitude of 127 whole units squared or more
/// drives the velocity to its ceiling of 127.
proof fn lemma_velocity_saturates(n: int, slope: int)
    requires
        slope >= 1,
        abs(n) >= 127_000_000_000_000,
    ensures
        spec_note_velocity(n, slope) == 127,
{
    let prod = abs(n) * slope;
    assert(prod >= 127_000_000_000_000) by (nonlinear_arith)
        requires
            slope >= 1,
            abs(n) >= 127_000_000_000_000,
            prod == abs(n) * slope,
    ;
    assert((prod + 500_000_000_000) / 1_000_000_000_000 >= 127) by {
        vstd::arithmetic::div_mod::lemma_div_is_ordered(
            127_000_000_000_000,
            prod + 500_000_000_000,
            1_000_000_000_000,
        );
        assert((127int * 1_000_000_000_000) / 1_000_000_000_000 == 127) by {
            vstd::arithmetic::div_mod::lemma_div_by_multiple(127, 1_000_000_000_000);
        }
    }
}

/// A clamped fixed-point fraction scales to at most 127.
proof fn lemma_scaled_fits_127(clamped: int)
    requires
        0 <= clamped <= 1_000_000,
    ensures
        0 <= (127 * clamped + 500_000) / 1_000_000 <= 127,
{
    vstd::arithmetic::div_mod::lemma_div_pos_is_pos(127 * clamped + 500_000, 1_000_000);
    vstd::arithmetic::div_mod::lemma_div_is_ordered(
        127 * clamped + 500_000,
        127_500_000,
        1_000_000,
    );
    assert(127_500_000int / 1_000_000 == 127) by {
        vstd::arithmetic::div_mod::lemma_div_multiples_vanish_fancy(127, 500_000, 1_000_000);
    }
}

} // verus!
