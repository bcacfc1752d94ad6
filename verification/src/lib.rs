//! Core of a bridge between a capacitive multi-zone sensor device and a MIDI
//! synthesizer.
//!
//! The device streams fixed-layout binary measurement packets; this crate
//! decodes them, remaps physical sensing zones to logical output zones,
//! maintains a per-zone exponential-moving-average baseline, and drives a
//! stateful MIDI gesture generator from the normalized signal. A companion
//! fixed-width codec reads and writes the device's per-zone calibration
//! records. All fractional quantities are held in fixed-point micro-units
//! (see [`fixed`]), so every computation here is exact and verified.
//!
//! Transport concerns (BLE connection, MIDI port handling, persistence,
//! plotting) are left to the surrounding application; this crate works on
//! plain byte buffers and values and produces MIDI messages as values.

use vstd::prelude::*;

pub mod ema;
pub mod fixed;
pub mod midi;
pub mod mpe;
pub mod pipeline;
pub mod sample;
pub mod wire;
pub mod zone_config;
pub mod zones;

verus! {

/// Number of independently sensed zones on the reference device.
pub const NUM_ZONES: usize = 8;

} // verus!
