//! The per-packet pipeline: decode, remap, normalize, translate.
//!
//! One [`Pipeline`] owns the zone permutation, one baseline filter per
//! logical zone, and the MIDI translator state. Each incoming packet runs
//! through the whole sequence synchronously, so packets are processed in
//! arrival order; the surrounding application only performs the waiting
//! and the sending.

use crate::ema::{spec_ema_step, ExponentialAverage};
use crate::fixed::{div_trunc, lemma_div_trunc_magnitude, FP_SCALE};
use crate::midi::{spec_translate, MidiConfig, MidiMessage, MidiProcessor};
use crate::sample::{spec_decode_sample, Sample, SampleError};
use crate::zones::{remap_zone, spec_remap_zone};
use crate::NUM_ZONES;
use vstd::prelude::*;

verus! {

/// A sample after remapping and normalization, ready for consumers.
#[derive(Debug, Clone, Copy, PartialEq, Eq)]
pub struct ProcessedSample {
    /// Device-clock milliseconds, carried through unchanged.
    pub timestamp: i32,
    /// Logical zone index, after the permutation.
    pub zone: usize,
    /// The raw magnitude in micro-units; 0 when the sample had no reading.
    pub value_raw: i64,
    /// Relative deviation of the raw reading from the zone's baseline, in
    /// micro-units; 0 with no reading or with a zero baseline.
    pub value_normalized: i128,
}

/// The relative deviation `(raw - average) / average` in micro-units,
/// rounded toward zero; zero where the baseline is zero, so that no
/// undefined ratio ever propagates downstream.
pub open spec fn spec_normalized(raw: int, average: int) -> int {
    if average == 0 {
        0
    } else if average > 0 {
        div_trunc((raw - average) * FP_SCALE, average)
    } else {
        -div_trunc((raw - average) * FP_SCALE, -average)
    }
}

/// Computes the normalized deviation, exactly per [`spec_normalized`].
pub fn normalized_deviation(raw_micro: i64, average: i64) -> (r: i128)
    ensures
        r == spec_normalized(raw_micro as int, average as int),
        i128::MIN < r < i128::MAX,
{
    if average == 0 {
        return 0;
    }
    proof {
        let diff = (raw_micro as int) - (average as int);
        assert(-0x2_0000_0000_0000_0000_000000 < diff * (FP_SCALE as int)
            < 0x2_0000_0000_0000_0000_000000) by (nonlinear_arith)
            requires
                -0x2_0000_0000_0000_0000 < diff < 0x2_0000_0000_0000_0000,
                FP_SCALE == 1_000_000i64,
        ;
    }
    let num: i128 = ((raw_micro as i128) - (average as i128)) * (FP_SCALE as i128);
    if average > 0 {
        proof {
            lemma_div_trunc_magnitude(num as int, average as int);
        }
        num / (average as i128)
    } else {
        proof {
            lemma_div_trunc_magnitude(num as int, -(average as int));
        }
        -(num / (-(average as i128)))
    }
}

/// How one sample relates the baseline filters before and after a pipeline
/// pass to the processed sample it yields.
///
/// The logical zone is the sample's physical zone put through the
/// permutation. A sample with a reading feeds the reading (in micro-units)
/// into that zone's filter and is normalized against the freshly updated
/// baseline — so the first reading of a zone always normalizes to zero. A
/// sample without a reading changes nothing and yields zeroes.
pub open spec fn spec_processed(
    s: Sample,
    before: Seq<ExponentialAverage>,
    after: Seq<ExponentialAverage>,
    zone_map: Seq<usize>,
    ps: ProcessedSample,
) -> bool {
    let zone = spec_remap_zone(zone_map, s.zone);
    &&& ps.timestamp == s.timestamp
    &&& ps.zone == zone
    &&& match s.value {
        Some(v) => {
            let raw = v * (FP_SCALE as int);
            &&& ps.value_raw == raw
            &&& 0 <= zone < before.len()
            &&& after =~= before.update(zone, after[zone])
            &&& after[zone].spec_alpha() == before[zone].spec_alpha()
            &&& after[zone].spec_average() == (match before[zone].spec_average() {
                None => Some(raw),
                Some(avg) => Some(spec_ema_step(avg, raw, before[zone].spec_alpha())),
            })
            &&& ps.value_normalized == spec_normalized(raw, after[zone].spec_average()->Some_0)
        },
        None => {
            &&& ps.value_raw == 0
            &&& ps.value_normalized == 0
            &&& after =~= before
        },
    }
}

/// The first reading of a zone always normalizes to zero, whatever its
/// magnitude: the reading itself seeds the baseline it is measured
/// against. (A wire value of zero never reaches this point; it decodes to
/// "no reading".)
pub proof fn lemma_first_reading_normalizes_to_zero(
    s: Sample,
    before: Seq<ExponentialAverage>,
    after: Seq<ExponentialAverage>,
    zone_map: Seq<usize>,
    ps: ProcessedSample,
)
    requires
        spec_processed(s, before, after, zone_map, ps),
        s.value matches Some(v) && v != 0,
        before[spec_remap_zone(zone_map, s.zone)].spec_average() is None,
    ensures
        ps.value_normalized == 0,
{
    let raw = s.value->Some_0 * (FP_SCALE as int);
    assert(raw != 0);
    if raw > 0 {
        vstd::arithmetic::div_mod::lemma_div_of0(raw);
    } else {
        vstd::arithmetic::div_mod::lemma_div_of0(-raw);
    }
}

/// One pipeline pass over a decoded sample: remaps the zone, feeds the
/// reading into that zone's baseline filter, and normalizes it against the
/// updated baseline, per [`spec_processed`].
pub fn process_sample(
    sample: Sample,
    zone_averages: &mut Vec<ExponentialAverage>,
    zone_map: &Vec<usize>,
) -> (r: ProcessedSample)
    requires
        sample.zone < NUM_ZONES,
        old(zone_averages)@.len() == NUM_ZONES,
        zone_map@.len() == NUM_ZONES,
        forall|i: int| 0 <= i < NUM_ZONES ==> old(zone_averages)@[i].wf(),
    ensures
        final(zone_averages)@.len() == NUM_ZONES,
        forall|i: int| 0 <= i < NUM_ZONES ==> final(zone_averages)@[i].wf(),
        spec_processed(sample, old(zone_averages)@, final(zone_averages)@, zone_map@, r),
        i128::MIN < r.value_normalized,
{
    let zone = remap_zone(sample.zone, zone_map);
    match sample.value {
        Some(v) => {
            let raw: i64 = (v as i64) * FP_SCALE;
            let mut filter = zone_averages[zone];
            filter.update(raw);
            zone_averages.set(zone, filter);
            let average = match filter.get_average() {
                Some(avg) => avg,
                None => 0,
            };
            let normalized = normalized_deviation(raw, average);
            ProcessedSample { timestamp: sample.timestamp, zone, value_raw: raw, value_normalized: normalized }
        },
        None => {
            proof {
                assert(zone_averages@ =~= old(zone_averages)@);
            }
            ProcessedSample { timestamp: sample.timestamp, zone, value_raw: 0, value_normalized: 0 }
        },
    }
}

/// The per-packet coordinator: the permutation, one baseline filter per
/// logical zone, and the MIDI translator state.
pub struct Pipeline {
    zone_map: Vec<usize>,
    zone_averages: Vec<ExponentialAverage>,
    midi: MidiProcessor,
}

impl Pipeline {
    /// The zone permutation in force.
    pub closed spec fn spec_zone_map(self) -> Seq<usize> {
        self.zone_map@
    }

    /// The per-zone baseline filters.
    pub closed spec fn spec_averages(self) -> Seq<ExponentialAverage> {
        self.zone_averages@
    }

    /// Which zones currently sound a note.
    pub closed spec fn spec_note_states(self) -> Seq<bool> {
        self.midi.spec_note_states()
    }

    /// One permutation entry and one healthy filter per zone, and one
    /// note state per zone.
    pub open spec fn wf(self) -> bool {
        &&& self.spec_zone_map().len() == NUM_ZONES
        &&& self.spec_averages().len() == NUM_ZONES
        &&& forall|i: int| 0 <= i < NUM_ZONES ==> self.spec_averages()[i].wf()
        &&& self.spec_note_states().len() == NUM_ZONES
    }

    /// A fresh pipeline over `zone_map`, with every baseline absent, every
    /// zone silent, and each filter smoothing with `alpha` (micro-units).
    pub fn new(zone_map: Vec<usize>, alpha: i64) -> (r: Self)
        requires
            zone_map@.len() == NUM_ZONES,
            0 <= alpha <= FP_SCALE,
        ensures
            r.wf(),
            r.spec_zone_map() == zone_map@,
            forall|i: int| 0 <= i < NUM_ZONES ==> r.spec_averages()[i].spec_average() is None,
            forall|i: int| 0 <= i < NUM_ZONES ==> r.spec_averages()[i].spec_alpha() == alpha,
            forall|i: int| 0 <= i < NUM_ZONES ==> !r.spec_note_states()[i],
    {
        let mut zone_averages: Vec<ExponentialAverage> = Vec::new();
        let mut i: usize = 0;
        while i < NUM_ZONES
            invariant
                i <= NUM_ZONES,
                zone_averages@.len() == i,
                0 <= alpha <= FP_SCALE,
                forall|k: int|
                    0 <= k < i ==> zone_averages@[k].wf() && zone_averages@[k].spec_average()
                        is None && zone_averages@[k].spec_alpha() == alpha,
            decreases NUM_ZONES - i,
        {
            zone_averages.push(ExponentialAverage::new(alpha));
            i = i + 1;
        }
        Pipeline { zone_map, zone_averages, midi: MidiProcessor::new() }
    }

    /// Handles one incoming packet: decodes it, runs the pipeline pass,
    /// and translates the normalized reading into MIDI messages.
    ///
    /// A malformed packet is returned as the decoder's error with the
    /// pipeline state untouched, so one bad packet never derails the loop.
    pub fn handle_packet(&mut self, data: &[u8], config: &MidiConfig) -> (r: Result<
        (ProcessedSample, Vec<MidiMessage>),
        SampleError,
    >)
        requires
            old(self).wf(),
        ensures
            final(self).wf(),
            final(self).spec_zone_map() == old(self).spec_zone_map(),
            (match spec_decode_sample(data@) {
                Err(e) => {
                    &&& r == Err::<(ProcessedSample, Vec<MidiMessage>), SampleError>(e)
                    &&& *final(self) == *old(self)
                },
                Ok(s) => r matches Ok((ps, msgs)) && {
                    &&& spec_processed(
                        s,
                        old(self).spec_averages(),
                        final(self).spec_averages(),
                        old(self).spec_zone_map(),
                        ps,
                    )
                    &&& msgs@ =~= spec_translate(
                        old(self).spec_note_states(),
                        ps.zone as int,
                        ps.value_normalized as int,
                        *config,
                    ).0
                    &&& final(self).spec_note_states() =~= spec_translate(
                        old(self).spec_note_states(),
                        ps.zone as int,
                        ps.value_normalized as int,
                        *config,
                    ).1
                },
            }),
    {
        let sample = match Sample::from_bytes(data) {
            Ok(sample) => sample,
            Err(e) => {
                return Err(e);
            },
        };
        let processed = process_sample(sample, &mut self.zone_averages, &self.zone_map);
        let msgs = self.midi.process_sample(processed.zone, processed.value_normalized, config);
        Ok((processed, msgs))
    }
}

} // verus!
