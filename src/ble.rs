use crate::config::{parse_uuid, uuid_text_valid};
use crate::domain::{ProcessedTrack, TrackType};
use crate::error::{Result, VitalError};
use vstd::prelude::*;

verus! {

/// The largest notification payload, in bytes, that the BLE output sends.
pub const MAX_BLE_PAYLOAD: usize = 500;

/// The value of a track as the BLE output reports it.
#[derive(Clone, Debug)]
pub enum BleValue<N> {
    Number { value: N, display: String },
    Text { value: String },
    Other { value: String },
}

/// One track as the BLE output reports it.
#[derive(Clone, Debug)]
pub struct BleTrack<N> {
    pub name: String,
    pub room: String,
    /// `number`, `string`, `other` or `waveform`.
    pub track_type: String,
    pub unit: String,
    /// Epoch milliseconds.
    pub timestamp: i64,
    pub value: BleValue<N>,
}

/// The name of a track class in BLE messages.
pub open spec fn type_label(t: TrackType) -> Seq<char> {
    match t {
        TrackType::Number => "number"@,
        TrackType::String => "string"@,
        TrackType::Other => "other"@,
        TrackType::Waveform => "waveform"@,
    }
}

/// A BLE track made from a processed track.
pub open spec fn ble_track_ok<N>(b: BleTrack<N>, t: ProcessedTrack<N>) -> bool {
    &&& b.name@ == t.name@
    &&& b.room@ == t.room_name@
    &&& b.track_type@ == type_label(t.track_type)
    &&& b.unit@ == t.unit@
    &&& b.timestamp == t.timestamp
    &&& match t.track_type {
        TrackType::Number => b.value matches BleValue::Number { value, display } && Some(value)
            == t.raw_value && display@ == t.display_value@,
        TrackType::String => b.value matches BleValue::Text { value } && value@
            == t.display_value@,
        _ => b.value matches BleValue::Other { value } && value@ == t.display_value@,
    }
}

/// The payload bytes that fit in one notification: cut at the limit.
pub open spec fn fitted_payload(bytes: Seq<u8>) -> Seq<u8> {
    if bytes.len() > MAX_BLE_PAYLOAD {
        bytes.take(MAX_BLE_PAYLOAD as int)
    } else {
        bytes
    }
}

/// The low 48 bits of a UUID (its last group), as an integer.
pub open spec fn low48(u: u128) -> int {
    u as int % 0x1_0000_0000_0000
}

/// The UUID of the data characteristic: the service UUID with one added to
/// its last group. `None` where that group is already all ones, so that the
/// sum would not fit in it.
pub fn characteristic_id(service: u128) -> (r: Option<u128>)
    ensures
        low48(service) == 0xFFFF_FFFF_FFFF ==> r is None,
        low48(service) < 0xFFFF_FFFF_FFFF ==> r == Some((service + 1) as u128),
{
    if service % 0x1_0000_0000_0000 == 0xFFFF_FFFF_FFFF {
        None
    } else {
        assert(service < u128::MAX) by {
            assert(u128::MAX as int % 0x1_0000_0000_0000 == 0xFFFF_FFFF_FFFF);
        }
        Some(service + 1)
    }
}

/// Settings of the BLE output and the conversion of snapshots into what
/// it advertises.
#[derive(Debug)]
pub struct BleOutput {
    pub device_name: String,
    pub service_uuid: uuid::Uuid,
}

impl BleOutput {
    /// The BLE output for a device name and a service UUID given as text;
    /// a text that is not a UUID is a `Config` error.
    pub fn new(device_name: String, service_uuid_str: &str) -> (r: Result<BleOutput>)
        ensures
            r is Ok <==> uuid_text_valid(service_uuid_str@),
            r matches Ok(b) ==> b.device_name == device_name,
            r matches Err(e) ==> e is Config,
    {
        match parse_uuid(service_uuid_str) {
            Ok(service_uuid) => Ok(BleOutput { device_name, service_uuid }),
            Err(msg) => {
                let mut m = String::from_str("Invalid BLE service UUID: ");
                m.append(msg.as_str());
                Err(VitalError::Config(m))
            },
        }
    }

    /// The BLE form of a processed track. A number track carries its raw
    /// value, as every processed number track does.
    pub fn convert_track<N: Copy>(&self, track: &ProcessedTrack<N>) -> (r: BleTrack<N>)
        requires
            track.track_type == TrackType::Number ==> track.raw_value is Some,
        ensures
            ble_track_ok(r, *track),
    {
        let label = match track.track_type {
            TrackType::Number => "number",
            TrackType::String => "string",
            TrackType::Other => "other",
            TrackType::Waveform => "waveform",
        };
        let value = match track.track_type {
            TrackType::Number => {
                BleValue::Number { value: track.raw_value.unwrap(), display: track.display_value.clone() }
            },
            TrackType::String => BleValue::Text { value: track.display_value.clone() },
            _ => BleValue::Other { value: track.display_value.clone() },
        };
        BleTrack {
            name: track.name.clone(),
            room: track.room_name.clone(),
            track_type: String::from_str(label),
            unit: track.unit.clone(),
            timestamp: track.timestamp,
            value,
        }
    }

    /// The payload cut to what one notification can carry.
    pub fn fit_payload(bytes: Vec<u8>) -> (r: Vec<u8>)
        ensures
            r@ == fitted_payload(bytes@),
    {
        let mut bytes = bytes;
        if bytes.len() > MAX_BLE_PAYLOAD {
            bytes.truncate(MAX_BLE_PAYLOAD);
        }
        bytes
    }
}

} // verus!
