//! Decoding of the device's measurement packets.
//!
//! Each notification from the device is one 9-byte packet: a little-endian
//! signed 32-bit timestamp (device-clock milliseconds), a little-endian
//! signed 32-bit value, and a zone byte. A wire value of exactly zero is a
//! documented sentinel for "no reading" and decodes to `None`.

use crate::wire::{
    as_signed_32, as_unsigned_32, le_i32, le_u32_bytes, le_u32_val, lemma_le_u32_bytes_of_val,
    push_le_u32, u32_of_i32,
};
use crate::NUM_ZONES;
use vstd::prelude::*;

verus! {

/// Why a packet buffer failed to decode.
#[derive(Debug, Clone, Copy, PartialEq, Eq)]
pub enum SampleError {
    /// The buffer holds fewer bytes than the packet layout needs.
    DataTooShort,
    /// The zone byte names a zone the device does not have.
    InvalidZone,
}

/// One device measurement, as decoded from a packet.
#[derive(Debug, Clone, Copy, PartialEq, Eq)]
pub struct Sample {
    /// Device-clock milliseconds; wraps independently of the host clock.
    pub timestamp: i32,
    /// Physical zone index, always below [`NUM_ZONES`].
    pub zone: usize,
    /// Measured magnitude; `None` when the device sent the "no reading"
    /// sentinel (a wire value of exactly zero).
    pub value: Option<i32>,
}

/// The signed timestamp carried in bytes 0 to 3 of a packet.
pub open spec fn spec_timestamp(data: Seq<u8>) -> int {
    as_signed_32(le_u32_val(data[0], data[1], data[2], data[3]))
}

/// The signed value carried in bytes 4 to 7 of a packet.
pub open spec fn spec_value(data: Seq<u8>) -> int {
    as_signed_32(le_u32_val(data[4], data[5], data[6], data[7]))
}

/// What decoding a packet buffer yields.
pub open spec fn spec_decode_sample(data: Seq<u8>) -> Result<Sample, SampleError> {
    if data.len() < 9 {
        Err(SampleError::DataTooShort)
    } else if data[8] >= NUM_ZONES {
        Err(SampleError::InvalidZone)
    } else {
        Ok(
            Sample {
                timestamp: spec_timestamp(data) as i32,
                zone: data[8] as usize,
                value: if spec_value(data) == 0 {
                    None
                } else {
                    Some(spec_value(data) as i32)
                },
            },
        )
    }
}

/// The 9-byte packet encoding of a sample; an absent value encodes as the
/// zero sentinel.
pub open spec fn spec_encode_sample(s: Sample) -> Seq<u8> {
    le_u32_bytes(as_unsigned_32(s.timestamp as int)) + le_u32_bytes(
        as_unsigned_32(
            match s.value {
                Some(v) => v as int,
                None => 0,
            },
        ),
    ) + seq![s.zone as u8]
}

/// A sample the decoder can produce: the zone is in range and the value
/// never holds the numeric zero that the wire reserves for "no reading".
pub open spec fn sample_wf(s: Sample) -> bool {
    &&& s.zone < NUM_ZONES
    &&& s.value != Some(0i32)
}

impl Sample {
    /// Decodes one packet buffer.
    ///
    /// Fails with `DataTooShort` on fewer than 9 bytes and with
    /// `InvalidZone` on a zone byte of `NUM_ZONES` or more; otherwise the
    /// decoded sample carries the packet's timestamp, zone and value, with
    /// a wire value of zero decoding to `None`.
    pub fn from_bytes(data: &[u8]) -> (r: Result<Sample, SampleError>)
        ensures
            r == spec_decode_sample(data@),
            data@.len() < 9 <==> r == Err::<Sample, SampleError>(SampleError::DataTooShort),
            data@.len() >= 9 && data@[8] >= NUM_ZONES <==> r == Err::<Sample, SampleError>(
                SampleError::InvalidZone,
            ),
            r matches Ok(s) ==> sample_wf(s) && (s.value is None <==> spec_value(data@) == 0),
    {
        if data.len() < 9 {
            return Err(SampleError::DataTooShort);
        }
        let zone = data[8];
        if zone >= NUM_ZONES as u8 {
            return Err(SampleError::InvalidZone);
        }
        let timestamp = le_i32(data[0], data[1], data[2], data[3]);
        let value = le_i32(data[4], data[5], data[6], data[7]);
        Ok(
            Sample {
                timestamp,
                zone: zone as usize,
                value: if value == 0 {
                    None
                } else {
                    Some(value)
                },
            },
        )
    }

    /// Encodes the sample as one 9-byte packet.
    pub fn to_bytes(&self) -> (out: Vec<u8>)
        requires
            self.zone < NUM_ZONES,
        ensures
            out@ =~= spec_encode_sample(*self),
            out@.len() == 9,
    {
        let mut out: Vec<u8> = Vec::new();
        push_le_u32(&mut out, u32_of_i32(self.timestamp));
        let wire_value = match self.value {
            Some(v) => v,
            None => 0,
        };
        push_le_u32(&mut out, u32_of_i32(wire_value));
        out.push(self.zone as u8);
        out
    }
}

/// Decoding a valid packet and re-encoding the sample gives back the 9
/// packet bytes unchanged, timestamp and zone included.
pub proof fn lemma_sample_roundtrip(data: Seq<u8>)
    requires
        data.len() >= 9,
        data[8] < NUM_ZONES,
    ensures
        spec_decode_sample(data) matches Ok(s) && spec_encode_sample(s) =~= data.subrange(0, 9),
{
    let s = spec_decode_sample(data)->Ok_0;
    let ut = le_u32_val(data[0], data[1], data[2], data[3]);
    let uv = le_u32_val(data[4], data[5], data[6], data[7]);
    assert(as_unsigned_32(s.timestamp as int) == ut);
    lemma_le_u32_bytes_of_val(data[0], data[1], data[2], data[3]);
    assert(as_unsigned_32(
        match s.value {
            Some(v) => v as int,
            None => 0,
        },
    ) == uv);
    lemma_le_u32_bytes_of_val(data[4], data[5], data[6], data[7]);
}

} // verus!
