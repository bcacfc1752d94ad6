//! MPE (MIDI Polyphonic Expression) note/channel allocation.
//!
//! An independent polyphonic allocator: every active note gets its own MIDI
//! channel from a round-robin pool of member channels under a master
//! channel, so per-note pressure can be expressed as channel aftertouch.
//! Operations on unknown notes are deliberately no-ops, since protocol
//! partners may issue stray release or pressure events. Messages are
//! returned as values; sending them is the caller's concern.

use crate::midi::MidiMessage;
use vstd::prelude::*;

verus! {

const STATUS_CONTROL_CHANGE: u8 = 0xB0;

const STATUS_NOTE_ON: u8 = 0x90;

const STATUS_CHANNEL_AFTERTOUCH: u8 = 0xD0;

const CHANNEL_DATA_ENTRY_MSB: u8 = 0x06;

const CHANNEL_RPN_LSB: u8 = 0x64;

const CHANNEL_RPN_MSB: u8 = 0x65;

/// One MPE zone: a master channel with a pool of member channels.
struct ZoneConfig {
    master_channel: u8,
    member_channels: Vec<u8>,
    active: bool,
}

/// The allocator: the zone layout, the note-to-channel assignments both
/// ways, and the round-robin cursor over the member pool.
pub struct MPEKeyboard {
    lower_zone: ZoneConfig,
    upper_zone: ZoneConfig,
    active_notes: Vec<Option<u8>>,
    channel_notes: Vec<Option<u8>>,
    next_channel_index: usize,
    master_pitch_bend_range: u8,
    note_pitch_bend_range: u8,
    rpn_msb: u8,
    rpn_lsb: u8,
}

/// The three Registered-Parameter messages that set one channel's pitch
/// bend range to `range` semitones.
pub open spec fn spec_pitch_bend_range_msgs(channel: u8, range: u8) -> Seq<MidiMessage> {
    seq![
        MidiMessage { status: 0xB0u8 | channel, data1: 0x64u8, data2: Some(0u8) },
        MidiMessage { status: 0xB0u8 | channel, data1: 0x65u8, data2: Some(0u8) },
        MidiMessage { status: 0xB0u8 | channel, data1: 0x06u8, data2: Some(range) },
    ]
}

/// The pitch-bend-range messages for every member channel in order.
pub open spec fn spec_members_pitch_bend_msgs(members: Seq<u8>, range: u8) -> Seq<MidiMessage>
    decreases members.len(),
{
    if members.len() == 0 {
        seq![]
    } else {
        spec_members_pitch_bend_msgs(members.drop_last(), range) + spec_pitch_bend_range_msgs(
            members.last(),
            range,
        )
    }
}

impl MPEKeyboard {
    /// The member channel pool of the lower zone, in round-robin order.
    pub closed spec fn spec_members(self) -> Seq<u8> {
        self.lower_zone.member_channels@
    }

    /// The lower zone's master channel.
    pub closed spec fn spec_master_channel(self) -> u8 {
        self.lower_zone.master_channel
    }

    /// The round-robin cursor: which member channel the next key press takes.
    pub closed spec fn spec_cursor(self) -> int {
        self.next_channel_index as int
    }

    /// The channel each note currently sounds on, indexed by note number.
    pub closed spec fn spec_note_channels(self) -> Seq<Option<u8>> {
        self.active_notes@
    }

    /// The note each channel currently sounds, indexed by channel.
    pub closed spec fn spec_channel_notes(self) -> Seq<Option<u8>> {
        self.channel_notes@
    }

    /// The pitch bend range announced for the master channel, in semitones.
    pub closed spec fn spec_master_pitch_bend_range(self) -> u8 {
        self.master_pitch_bend_range
    }

    /// The pitch bend range announced for each member channel, in semitones.
    pub closed spec fn spec_note_pitch_bend_range(self) -> u8 {
        self.note_pitch_bend_range
    }

    /// The most recent Registered-Parameter-Number selector bytes received.
    pub closed spec fn spec_rpn(self) -> (u8, u8) {
        (self.rpn_msb, self.rpn_lsb)
    }

    /// A usable allocator: a nonempty member pool, the cursor inside it,
    /// and one assignment slot per note number and per channel.
    pub open spec fn wf(self) -> bool {
        &&& self.spec_members().len() > 0
        &&& self.spec_cursor() < self.spec_members().len()
        &&& self.spec_note_channels().len() == 256
        &&& self.spec_channel_notes().len() == 256
    }

    /// A fresh allocator: master channel 1 with member channels 2 to 15,
    /// an inactive upper zone, no notes sounding, and the customary pitch
    /// bend ranges (2 semitones for the master, 48 per note).
    ///
    /// The zone-configuration handshake it owes its protocol partner is
    /// returned by [`MPEKeyboard::send_mpe_configuration`].
    pub fn new() -> (r: Self)
        ensures
            r.wf(),
            r.spec_master_channel() == 1,
            r.spec_members() =~= seq![
                2u8, 3u8, 4u8, 5u8, 6u8, 7u8, 8u8, 9u8, 10u8, 11u8, 12u8, 13u8, 14u8, 15u8,
            ],
            r.spec_cursor() == 0,
            forall|i: int| 0 <= i < 256 ==> r.spec_note_channels()[i] is None,
            forall|i: int| 0 <= i < 256 ==> r.spec_channel_notes()[i] is None,
            r.spec_master_pitch_bend_range() == 2,
            r.spec_note_pitch_bend_range() == 48,
            r.spec_rpn() == (0u8, 0u8),
    {
        let mut member_channels: Vec<u8> = Vec::new();
        let mut ch: u8 = 2;
        while ch < 16
            invariant
                2 <= ch <= 16,
                member_channels@.len() == ch - 2,
                forall|i: int| 0 <= i < ch - 2 ==> member_channels@[i] == i + 2,
            decreases 16 - ch,
        {
            member_channels.push(ch);
            ch = ch + 1;
        }
        let mut active_notes: Vec<Option<u8>> = Vec::new();
        let mut channel_notes: Vec<Option<u8>> = Vec::new();
        let mut i: usize = 0;
        while i < 256
            invariant
                i <= 256,
                active_notes@.len() == i,
                channel_notes@.len() == i,
                forall|k: int| 0 <= k < i ==> active_notes@[k] is None,
                forall|k: int| 0 <= k < i ==> channel_notes@[k] is None,
            decreases 256 - i,
        {
            active_notes.push(None);
            channel_notes.push(None);
            i = i + 1;
        }
        MPEKeyboard {
            lower_zone: ZoneConfig { master_channel: 1, member_channels, active: true },
            upper_zone: ZoneConfig { master_channel: 16, member_channels: Vec::new(), active: false },
            active_notes,
            channel_notes,
            next_channel_index: 0,
            master_pitch_bend_range: 2,
            note_pitch_bend_range: 48,
            rpn_msb: 0,
            rpn_lsb: 0,
        }
    }

    /// The three Registered-Parameter messages that set `channel`'s pitch
    /// bend range, ready to be sent.
    pub fn send_pitch_bend_range(&self, channel: u8, range_semitones: u8) -> (msgs: Vec<
        MidiMessage,
    >)
        ensures
            msgs@ =~= spec_pitch_bend_range_msgs(channel, range_semitones),
    {
        let mut msgs: Vec<MidiMessage> = Vec::new();
        msgs.push(
            MidiMessage {
                status: STATUS_CONTROL_CHANGE | channel,
                data1: CHANNEL_RPN_LSB,
                data2: Some(0x00),
            },
        );
        msgs.push(
            MidiMessage {
                status: STATUS_CONTROL_CHANGE | channel,
                data1: CHANNEL_RPN_MSB,
                data2: Some(0x00),
            },
        );
        msgs.push(
            MidiMessage {
                status: STATUS_CONTROL_CHANGE | channel,
                data1: CHANNEL_DATA_ENTRY_MSB,
                data2: Some(range_semitones),
            },
        );
        msgs
    }

    /// The MPE zone-configuration handshake, ready to be sent: select the
    /// MPE configuration parameter, announce the member channel count,
    /// then set the master's and every member channel's pitch bend range.
    pub fn send_mpe_configuration(&self) -> (msgs: Vec<MidiMessage>)
        ensures
            msgs@ =~= seq![
                MidiMessage { status: 0xB0u8, data1: 0x64u8, data2: Some(0x06u8) },
                MidiMessage { status: 0xB0u8, data1: 0x65u8, data2: Some(0x00u8) },
                MidiMessage { status: 0xB0u8, data1: 0x06u8, data2: Some(0x0Eu8) },
            ] + spec_pitch_bend_range_msgs(
                self.spec_master_channel(),
                self.spec_master_pitch_bend_range(),
            ) + spec_members_pitch_bend_msgs(
                self.spec_members(),
                self.spec_note_pitch_bend_range(),
            ),
    {
        let mut msgs: Vec<MidiMessage> = Vec::new();
        msgs.push(
            MidiMessage { status: STATUS_CONTROL_CHANGE, data1: CHANNEL_RPN_LSB, data2: Some(0x06) },
        );
        msgs.push(
            MidiMessage { status: STATUS_CONTROL_CHANGE, data1: CHANNEL_RPN_MSB, data2: Some(0x00) },
        );
        msgs.push(
            MidiMessage {
                status: STATUS_CONTROL_CHANGE,
                data1: CHANNEL_DATA_ENTRY_MSB,
                data2: Some(0x0E),
            },
        );
        let mut master_msgs = self.send_pitch_bend_range(
            self.lower_zone.master_channel,
            self.master_pitch_bend_range,
        );
        msgs.append(&mut master_msgs);
        let ghost base = msgs@;
        let n = self.lower_zone.member_channels.len();
        let mut i: usize = 0;
        proof {
            assert(self.spec_members().subrange(0, 0) =~= Seq::<u8>::empty());
        }
        while i < n
            invariant
                i <= n,
                n == self.spec_members().len(),
                msgs@ =~= base + spec_members_pitch_bend_msgs(
                    self.spec_members().subrange(0, i as int),
                    self.spec_note_pitch_bend_range(),
                ),
            decreases n - i,
        {
            let mut channel_msgs = self.send_pitch_bend_range(
                self.lower_zone.member_channels[i],
                self.note_pitch_bend_range,
            );
            msgs.append(&mut channel_msgs);
            proof {
                let members = self.spec_members();
                assert(members.subrange(0, i + 1).drop_last() =~= members.subrange(0, i as int));
                assert(members.subrange(0, i + 1).last() == members[i as int]);
            }
            i = i + 1;
        }
        proof {
            assert(self.spec_members().subrange(0, n as int) =~= self.spec_members());
        }
        msgs
    }

    /// Takes the next member channel from the pool, advancing the
    /// round-robin cursor with wraparound.
    fn get_next_channel(&mut self) -> (channel: u8)
        requires
            old(self).wf(),
        ensures
            final(self).wf(),
            channel == old(self).spec_members()[old(self).spec_cursor()],
            final(self).spec_cursor() == (old(self).spec_cursor() + 1) % (
            old(self).spec_members().len() as int),
            final(self).spec_members() == old(self).spec_members(),
            final(self).spec_master_channel() == old(self).spec_master_channel(),
            final(self).spec_note_channels() == old(self).spec_note_channels(),
            final(self).spec_channel_notes() == old(self).spec_channel_notes(),
            final(self).spec_master_pitch_bend_range() == old(self).spec_master_pitch_bend_range(),
            final(self).spec_note_pitch_bend_range() == old(self).spec_note_pitch_bend_range(),
            final(self).spec_rpn() == old(self).spec_rpn(),
    {
        let pool_len = self.lower_zone.member_channels.len();
        let channel = self.lower_zone.member_channels[self.next_channel_index];
        self.next_channel_index = (self.next_channel_index + 1) % pool_len;
        channel
    }

    /// Assigns the next pool channel to `note_number`, records the
    /// assignment both ways, and returns the Note-On for it — followed,
    /// when `initial_pressure` is nonzero, by an initial channel-pressure
    /// message.
    pub fn handle_key_press(&mut self, note_number: u8, velocity: u8, initial_pressure: u8) -> (
        msgs: Vec<MidiMessage>)
        requires
            old(self).wf(),
        ensures
            final(self).wf(),
            ({
                let channel = old(self).spec_members()[old(self).spec_cursor()];
                &&& msgs@ =~= seq![
                    MidiMessage {
                        status: 0x90u8 | channel,
                        data1: note_number,
                        data2: Some(velocity),
                    },
                ] + (if initial_pressure > 0 {
                    seq![
                        MidiMessage {
                            status: 0xD0u8 | channel,
                            data1: initial_pressure,
                            data2: None,
                        },
                    ]
                } else {
                    Seq::<MidiMessage>::empty()
                })
                &&& final(self).spec_note_channels() == old(self).spec_note_channels().update(
                    note_number as int,
                    Some(channel),
                )
                &&& final(self).spec_channel_notes() == old(self).spec_channel_notes().update(
                    channel as int,
                    Some(note_number),
                )
                &&& final(self).spec_cursor() == (old(self).spec_cursor() + 1) % (
                old(self).spec_members().len() as int)
                &&& final(self).spec_members() == old(self).spec_members()
                &&& final(self).spec_rpn() == old(self).spec_rpn()
            }),
    {
        let channel = self.get_next_channel();
        self.active_notes.set(note_number as usize, Some(channel));
        self.channel_notes.set(channel as usize, Some(note_number));
        let mut msgs: Vec<MidiMessage> = Vec::new();
        msgs.push(
            MidiMessage { status: STATUS_NOTE_ON | channel, data1: note_number, data2: Some(velocity) },
        );
        if initial_pressure > 0 {
            msgs.push(
                MidiMessage {
                    status: STATUS_CHANNEL_AFTERTOUCH | channel,
                    data1: initial_pressure,
                    data2: None,
                },
            );
        }
        msgs
    }

    /// Releases `note_number`: on its assigned channel, emits the MPE
    /// note-off idiom (a Note-On with velocity zero) and frees both
    /// assignment entries. A note with no assignment is a no-op.
    pub fn handle_key_release(&mut self, note_number: u8, release_velocity: u8) -> (msgs: Vec<
        MidiMessage,
    >)
        requires
            old(self).wf(),
        ensures
            final(self).wf(),
            (match old(self).spec_note_channels()[note_number as int] {
                Some(channel) => {
                    &&& msgs@ =~= seq![
                        MidiMessage { status: 0x90u8 | channel, data1: note_number, data2: Some(0u8) },
                    ]
                    &&& final(self).spec_note_channels() == old(self).spec_note_channels().update(
                        note_number as int,
                        None::<u8>,
                    )
                    &&& final(self).spec_channel_notes() == old(self).spec_channel_notes().update(
                        channel as int,
                        None::<u8>,
                    )
                },
                None => {
                    &&& msgs@ =~= Seq::<MidiMessage>::empty()
                    &&& final(self).spec_note_channels() == old(self).spec_note_channels()
                    &&& final(self).spec_channel_notes() == old(self).spec_channel_notes()
                },
            }),
            final(self).spec_cursor() == old(self).spec_cursor(),
            final(self).spec_members() == old(self).spec_members(),
            final(self).spec_rpn() == old(self).spec_rpn(),
    {
        let mut msgs: Vec<MidiMessage> = Vec::new();
        if let Some(channel) = self.active_notes[note_number as usize] {
            msgs.push(
                MidiMessage { status: STATUS_NOTE_ON | channel, data1: note_number, data2: Some(0) },
            );
            self.active_notes.set(note_number as usize, None);
            self.channel_notes.set(channel as usize, None);
        }
        msgs
    }

    /// Reports new pressure for `note_number` as channel aftertouch on its
    /// assigned channel. A note with no assignment is a no-op.
    pub fn handle_key_pressure_change(&mut self, note_number: u8, new_pressure: u8) -> (msgs: Vec<
        MidiMessage,
    >)
        requires
            old(self).wf(),
        ensures
            final(self).wf(),
            *final(self) == *old(self),
            (match old(self).spec_note_channels()[note_number as int] {
                Some(channel) => msgs@ =~= seq![
                    MidiMessage { status: 0xD0u8 | channel, data1: new_pressure, data2: None },
                ],
                None => msgs@ =~= Seq::<MidiMessage>::empty(),
            }),
    {
        let mut msgs: Vec<MidiMessage> = Vec::new();
        if let Some(channel) = self.active_notes[note_number as usize] {
            msgs.push(
                MidiMessage {
                    status: STATUS_CHANNEL_AFTERTOUCH | channel,
                    data1: new_pressure,
                    data2: None,
                },
            );
        }
        msgs
    }

    /// Consumes one inbound MIDI message: Control-Change messages carrying
    /// the Registered-Parameter selector bytes update the stored selector;
    /// everything else is ignored.
    pub fn receive_midi_message(&mut self, message: &[u8])
        requires
            old(self).wf(),
            message@.len() >= 2,
        ensures
            final(self).wf(),
            ({
                let was_rpn_lsb = message@[0] & 0xF0 == 0xB0 && message@[1] == 0x64;
                let was_rpn_msb = message@[0] & 0xF0 == 0xB0 && message@[1] == 0x65;
                let data2 = if message@.len() >= 3 {
                    message@[2]
                } else {
                    0u8
                };
                &&& final(self).spec_rpn().1 == (if was_rpn_lsb {
                    data2
                } else {
                    old(self).spec_rpn().1
                })
                &&& final(self).spec_rpn().0 == (if was_rpn_msb {
                    data2
                } else {
                    old(self).spec_rpn().0
                })
            }),
            final(self).spec_note_channels() == old(self).spec_note_channels(),
            final(self).spec_channel_notes() == old(self).spec_channel_notes(),
            final(self).spec_cursor() == old(self).spec_cursor(),
            final(self).spec_members() == old(self).spec_members(),
    {
        let status = message[0];
        let data1 = message[1];
        let data2 = match message.get(2) {
            Some(b) => *b,
            None => 0,
        };
        if status & 0xF0 == STATUS_CONTROL_CHANGE {
            if data1 == CHANNEL_RPN_LSB {
                self.rpn_lsb = data2;
            } else if data1 == CHANNEL_RPN_MSB {
                self.rpn_msb = data2;
            }
        }
    }
}

} // verus!
