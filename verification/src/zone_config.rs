//! The fixed-width binary codec for the device's per-zone calibration
//! records.
//!
//! One record is 20 bytes, little-endian, 4-byte aligned: an enabled byte, a
//! MIDI control byte, two padding bytes (zero on encode, ignored on decode),
//! and four unsigned 32-bit fields. The device exchanges an array of exactly
//! [`crate::NUM_ZONES`] records as one contiguous transfer with no framing,
//! so the array codec accepts only a buffer of exactly 20 times the record
//! count.

use crate::wire::{
    le_byte_0, le_byte_1, le_byte_2, le_byte_3, le_u32, le_u32_val, lemma_le_u32_roundtrip,
    push_le_u32,
};
use vstd::prelude::*;

verus! {

/// Why a calibration buffer failed to decode.
#[derive(Debug, Clone, Copy, PartialEq, Eq)]
pub enum DeviceConfigError {
    /// The buffer does not hold the exact number of bytes the record layout
    /// needs.
    DataTooShort,
}

/// Size in bytes of one encoded calibration record.
pub const ZONE_CONFIG_SIZE: usize = 20;

/// One zone's configurable sensing parameters, as persisted on the device.
///
/// The codec enforces no ordering between the `_lo`/`_hi` or
/// `_begin`/`_end` bounds; validation is a caller concern.
#[derive(Debug, Clone, Copy, PartialEq, Eq)]
pub struct DildonicaZoneConfig {
    pub enabled: bool,
    pub midi_control: u8,
    pub cycle_count_begin: u32,
    pub cycle_count_end: u32,
    pub comp_thresh_lo: u32,
    pub comp_thresh_hi: u32,
}

impl Default for DildonicaZoneConfig {
    /// The factory calibration the host assumes before it has read the
    /// device.
    fn default() -> (c: Self)
        ensures
            c == (DildonicaZoneConfig {
                enabled: true,
                midi_control: 0u8,
                cycle_count_begin: 1000u32,
                cycle_count_end: 10000u32,
                comp_thresh_lo: 100u32,
                comp_thresh_hi: 4000u32,
            }),
    {
        DildonicaZoneConfig {
            enabled: true,
            midi_control: 0,
            cycle_count_begin: 1000,
            cycle_count_end: 10000,
            comp_thresh_lo: 100,
            comp_thresh_hi: 4000,
        }
    }
}

/// The 20-byte encoding of one calibration record: enabled byte, control
/// byte, two zero padding bytes, then the four 32-bit fields little-endian.
pub open spec fn spec_encode_zone_config(c: DildonicaZoneConfig) -> Seq<u8> {
    seq![
        if c.enabled {
            1u8
        } else {
            0u8
        },
        c.midi_control,
        0u8,
        0u8,
        le_byte_0(c.cycle_count_begin as int),
        le_byte_1(c.cycle_count_begin as int),
        le_byte_2(c.cycle_count_begin as int),
        le_byte_3(c.cycle_count_begin as int),
        le_byte_0(c.cycle_count_end as int),
        le_byte_1(c.cycle_count_end as int),
        le_byte_2(c.cycle_count_end as int),
        le_byte_3(c.cycle_count_end as int),
        le_byte_0(c.comp_thresh_lo as int),
        le_byte_1(c.comp_thresh_lo as int),
        le_byte_2(c.comp_thresh_lo as int),
        le_byte_3(c.comp_thresh_lo as int),
        le_byte_0(c.comp_thresh_hi as int),
        le_byte_1(c.comp_thresh_hi as int),
        le_byte_2(c.comp_thresh_hi as int),
        le_byte_3(c.comp_thresh_hi as int),
    ]
}

/// The record carried by the first 20 bytes of a buffer; meaningful only
/// when the buffer holds at least that much.
pub open spec fn spec_zone_config_fields(data: Seq<u8>) -> DildonicaZoneConfig {
    DildonicaZoneConfig {
        enabled: data[0] != 0,
        midi_control: data[1],
        cycle_count_begin: le_u32_val(data[4], data[5], data[6], data[7]) as u32,
        cycle_count_end: le_u32_val(data[8], data[9], data[10], data[11]) as u32,
        comp_thresh_lo: le_u32_val(data[12], data[13], data[14], data[15]) as u32,
        comp_thresh_hi: le_u32_val(data[16], data[17], data[18], data[19]) as u32,
    }
}

/// What decoding one record buffer yields.
pub open spec fn spec_decode_zone_config(data: Seq<u8>) -> Result<
    DildonicaZoneConfig,
    DeviceConfigError,
> {
    if data.len() < ZONE_CONFIG_SIZE {
        Err(DeviceConfigError::DataTooShort)
    } else {
        Ok(spec_zone_config_fields(data))
    }
}

impl DildonicaZoneConfig {
    /// Encodes the record as its 20-byte wire form, padding bytes zero.
    pub fn to_bytes(&self) -> (out: Vec<u8>)
        ensures
            out@ =~= spec_encode_zone_config(*self),
            out@.len() == ZONE_CONFIG_SIZE,
    {
        let mut out: Vec<u8> = Vec::new();
        out.push(if self.enabled {
            1
        } else {
            0
        });
        out.push(self.midi_control);
        out.push(0);
        out.push(0);
        push_le_u32(&mut out, self.cycle_count_begin);
        push_le_u32(&mut out, self.cycle_count_end);
        push_le_u32(&mut out, self.comp_thresh_lo);
        push_le_u32(&mut out, self.comp_thresh_hi);
        out
    }

    /// Decodes one record from the first 20 bytes of a buffer.
    ///
    /// Fails with `DataTooShort` exactly when fewer than 20 bytes are
    /// supplied; the two padding bytes are ignored.
    pub fn from_bytes(data: &[u8]) -> (r: Result<Self, DeviceConfigError>)
        ensures
            r == spec_decode_zone_config(data@),
            data@.len() < ZONE_CONFIG_SIZE <==> r == Err::<DildonicaZoneConfig, DeviceConfigError>(
                DeviceConfigError::DataTooShort,
            ),
    {
        if data.len() < ZONE_CONFIG_SIZE {
            return Err(DeviceConfigError::DataTooShort);
        }
        Ok(
            DildonicaZoneConfig {
                enabled: data[0] != 0,
                midi_control: data[1],
                cycle_count_begin: le_u32(data[4], data[5], data[6], data[7]),
                cycle_count_end: le_u32(data[8], data[9], data[10], data[11]),
                comp_thresh_lo: le_u32(data[12], data[13], data[14], data[15]),
                comp_thresh_hi: le_u32(data[16], data[17], data[18], data[19]),
            },
        )
    }
}

/// Decoding an encoded record gives the record back unchanged.
pub proof fn lemma_zone_config_roundtrip(c: DildonicaZoneConfig)
    ensures
        spec_decode_zone_config(spec_encode_zone_config(c)) == Ok::<
            DildonicaZoneConfig,
            DeviceConfigError,
        >(c),
{
    lemma_le_u32_roundtrip(c.cycle_count_begin as int);
    lemma_le_u32_roundtrip(c.cycle_count_end as int);
    lemma_le_u32_roundtrip(c.comp_thresh_lo as int);
    lemma_le_u32_roundtrip(c.comp_thresh_hi as int);
    assert(spec_zone_config_fields(spec_encode_zone_config(c)) == c);
}

/// The concatenated encoding of an array of records, in order and with no
/// framing.
pub open spec fn spec_encode_zone_configs(cs: Seq<DildonicaZoneConfig>) -> Seq<u8>
    decreases cs.len(),
{
    if cs.len() == 0 {
        Seq::empty()
    } else {
        spec_encode_zone_configs(cs.drop_last()) + spec_encode_zone_config(cs.last())
    }
}

/// The array encoding is 20 bytes per record, and each record's bytes stand
/// at its own offset.
pub proof fn lemma_encode_zone_configs_len(cs: Seq<DildonicaZoneConfig>)
    ensures
        spec_encode_zone_configs(cs).len() == ZONE_CONFIG_SIZE * cs.len(),
    decreases cs.len(),
{
    if cs.len() > 0 {
        lemma_encode_zone_configs_len(cs.drop_last());
    }
}

/// Encodes an array of records as one contiguous buffer.
pub fn encode_zone_configs(configs: &Vec<DildonicaZoneConfig>) -> (out: Vec<u8>)
    requires
        ZONE_CONFIG_SIZE * configs@.len() <= usize::MAX,
    ensures
        out@ =~= spec_encode_zone_configs(configs@),
        out@.len() == ZONE_CONFIG_SIZE * configs@.len(),
    decreases configs@.len(),
{
    let mut out: Vec<u8> = Vec::new();
    let mut i: usize = 0;
    proof {
        lemma_encode_zone_configs_len(configs@.subrange(0, 0));
    }
    while i < configs.len()
        invariant
            i <= configs@.len(),
            out@ =~= spec_encode_zone_configs(configs@.subrange(0, i as int)),
            out@.len() == ZONE_CONFIG_SIZE * i,
            ZONE_CONFIG_SIZE * configs@.len() <= usize::MAX,
        decreases configs@.len() - i,
    {
        let mut rec = configs[i].to_bytes();
        out.append(&mut rec);
        proof {
            assert(configs@.subrange(0, i + 1).drop_last() =~= configs@.subrange(0, i as int));
            assert(configs@.subrange(0, i + 1).last() == configs@[i as int]);
        }
        i = i + 1;
    }
    proof {
        assert(configs@.subrange(0, configs@.len() as int) =~= configs@);
        lemma_encode_zone_configs_len(configs@);
    }
    out
}

/// Decodes a contiguous buffer of exactly `20 * num_zones` bytes into
/// `num_zones` records.
///
/// Fails with `DataTooShort` exactly when the buffer length differs from
/// `20 * num_zones`; in particular a length that is not a multiple of 20
/// never decodes. No partial records are produced.
pub fn decode_zone_configs(data: &[u8], num_zones: usize) -> (r: Result<
    Vec<DildonicaZoneConfig>,
    DeviceConfigError,
>)
    ensures
        data@.len() == ZONE_CONFIG_SIZE * num_zones <==> r is Ok,
        (data@.len() as int) % (ZONE_CONFIG_SIZE as int) != 0 ==> r == Err::<
            Vec<DildonicaZoneConfig>,
            DeviceConfigError,
        >(DeviceConfigError::DataTooShort),
        r matches Ok(v) ==> v@.len() == num_zones && forall|j: int|
            0 <= j < num_zones ==> v@[j] == spec_zone_config_fields(
                data@.subrange(ZONE_CONFIG_SIZE * j, ZONE_CONFIG_SIZE * j + ZONE_CONFIG_SIZE),
            ),
{
    let n = data.len();
    let expected = match ZONE_CONFIG_SIZE.checked_mul(num_zones) {
        Some(e) => e,
        None => {
            return Err(DeviceConfigError::DataTooShort);
        },
    };
    if n != expected {
        return Err(DeviceConfigError::DataTooShort);
    }
    let mut configs: Vec<DildonicaZoneConfig> = Vec::new();
    let mut i: usize = 0;
    while i < num_zones
        invariant
            i <= num_zones,
            data@.len() == ZONE_CONFIG_SIZE * num_zones,
            ZONE_CONFIG_SIZE * num_zones <= usize::MAX,
            configs@.len() == i,
            forall|j: int|
                0 <= j < i ==> configs@[j] == spec_zone_config_fields(
                    data@.subrange(ZONE_CONFIG_SIZE * j, ZONE_CONFIG_SIZE * j + ZONE_CONFIG_SIZE),
                ),
        decreases num_zones - i,
    {
        proof {
            vstd::arithmetic::mul::lemma_mul_inequality(i + 1, num_zones as int, 20int);
        }
        let chunk = vstd::slice::slice_subrange(data, 20 * i, 20 * i + 20);
        let rec = match DildonicaZoneConfig::from_bytes(chunk) {
            Ok(rec) => rec,
            Err(e) => {
                return Err(e);
            },
        };
        configs.push(rec);
        i = i + 1;
    }
    proof {
        vstd::arithmetic::div_mod::lemma_mod_multiples_basic(num_zones as int, 20int);
    }
    Ok(configs)
}

} // verus!
