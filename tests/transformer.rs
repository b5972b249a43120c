use vrconnect::domain::{RecordValue, TrackType, VitalData, VitalRecord, VitalRoom, VitalTrack};
use vrconnect::transformer::{Sample, VitalDataTransformer, MAX_UTC_MILLIS, MIN_UTC_MILLIS};

#[derive(Clone, Copy, Debug, PartialEq)]
struct F(f64);

impl Sample for F {
    fn fixed3(&self) -> String {
        format!("{:.3}", self.0)
    }

    fn summarize(points: &Vec<F>) -> (F, F, F) {
        let min = points.iter().map(|p| p.0).fold(f64::INFINITY, f64::min);
        let max = points.iter().map(|p| p.0).fold(f64::NEG_INFINITY, f64::max);
        let sum: f64 = points.iter().map(|p| p.0).sum();
        (F(min), F(max), F(sum / points.len() as f64))
    }
}

fn num(v: f64) -> RecordValue<F> {
    RecordValue::Number(F(v))
}

fn array(vs: &[f64]) -> RecordValue<F> {
    let text = format!("[{}]", vs.iter().map(|v| format!("{:?}", v)).collect::<Vec<_>>().join(","));
    RecordValue::Array(vs.iter().map(|v| Some(F(*v))).collect(), text)
}

fn record(value: RecordValue<F>, ts: Option<i64>) -> VitalRecord<F> {
    VitalRecord { value, timestamp: ts, time: None }
}

fn track(id: &str, name: &str, kind: Option<&str>, unit: Option<&str>, records: Vec<VitalRecord<F>>) -> VitalTrack<F> {
    VitalTrack {
        id: Some(id.to_string()),
        name: Some(name.to_string()),
        track_type: kind.map(|s| s.to_string()),
        unit: unit.map(|s| s.to_string()),
        mon_type: None,
        display_name: None,
        sample_rate: None,
        records,
    }
}

fn room(seq: i32, name: &str, tracks: Vec<VitalTrack<F>>) -> VitalRoom<F> {
    VitalRoom { seq_id: Some(seq), room_name: Some(name.to_string()), tracks, events: vec![] }
}

#[test]
fn test_transformer_new() {
    let transformer = VitalDataTransformer::new();
    let vital_data: VitalData<F> = VitalData { vr_code: "VR-TEST".to_string(), rooms: vec![] };
    let result = transformer.transform(vital_data);
    assert_eq!(result.device_id, "VR-TEST");
}

#[test]
fn test_transform_empty_rooms() {
    let transformer = VitalDataTransformer::new();
    let vital_data: VitalData<F> = VitalData { vr_code: "VR-EMPTY".to_string(), rooms: vec![] };
    let result = transformer.transform(vital_data);
    assert_eq!(result.device_id, "VR-EMPTY");
    assert_eq!(result.rooms.len(), 0);
    assert_eq!(result.all_tracks.len(), 0);
}

#[test]
fn test_transform_numeric_track() {
    let transformer = VitalDataTransformer::new();
    let vital_data = VitalData {
        vr_code: "VR-TEST".to_string(),
        rooms: vec![room(0, "BED_01", vec![track("1", "HR", Some("num"), Some("bpm"), vec![record(num(75.0), Some(1234567890))])])],
    };
    let result = transformer.transform(vital_data);
    assert_eq!(result.rooms.len(), 1);
    assert_eq!(result.all_tracks.len(), 1);
    let track = &result.all_tracks[0];
    assert_eq!(track.name, "HR");
    assert_eq!(track.unit, "bpm");
    assert_eq!(track.track_type, TrackType::Number);
    assert_eq!(track.raw_value, Some(F(75.0)));
    assert!(track.display_value.contains("75"));
    assert_eq!(track.display_value, "75.000");
    assert_eq!(track.timestamp, 1234567890);
}

#[test]
fn test_transform_waveform_track() {
    let transformer = VitalDataTransformer::new();
    let vital_data = VitalData {
        vr_code: "VR-TEST".to_string(),
        rooms: vec![room(0, "BED_01", vec![track("2", "ECG", Some("wav"), Some("mV"), vec![record(array(&[1.0, 2.0, 3.0, 4.0, 5.0]), Some(1234567890))])])],
    };
    let result = transformer.transform(vital_data);
    assert_eq!(result.all_tracks.len(), 1);
    let track = &result.all_tracks[0];
    assert_eq!(track.name, "ECG");
    assert_eq!(track.track_type, TrackType::Waveform);
    assert!(track.waveform_stats.is_some());
    assert!(track.waveform_points.is_some());
    let stats = track.waveform_stats.as_ref().unwrap();
    assert_eq!(stats.min, F(1.0));
    assert_eq!(stats.max, F(5.0));
    assert_eq!(stats.avg, F(3.0));
    assert_eq!(stats.count, 5);
    let points = track.waveform_points.as_ref().unwrap();
    assert_eq!(points.len(), 5);
    assert_eq!(track.display_value, "5 points (1.000 to 5.000, avg: 3.000)");
}

#[test]
fn test_transform_string_track() {
    let transformer = VitalDataTransformer::new();
    let vital_data = VitalData {
        vr_code: "VR-TEST".to_string(),
        rooms: vec![room(0, "BED_01", vec![track("3", "ALARM", Some("str"), None, vec![record(RecordValue::Text("HR High".to_string()), Some(1234567890))])])],
    };
    let result = transformer.transform(vital_data);
    assert_eq!(result.all_tracks.len(), 1);
    let track = &result.all_tracks[0];
    assert_eq!(track.track_type, TrackType::String);
    assert_eq!(track.display_value, "HR High");
    assert_eq!(track.unit, "");
}

#[test]
fn test_transform_multiple_rooms() {
    let transformer = VitalDataTransformer::new();
    let vital_data = VitalData {
        vr_code: "VR-TEST".to_string(),
        rooms: vec![
            room(0, "BED_01", vec![track("1", "HR", Some("num"), Some("bpm"), vec![record(num(75.0), Some(1234567890))])]),
            room(1, "BED_02", vec![track("2", "SpO2", Some("num"), Some("%"), vec![record(num(98.0), Some(1234567890))])]),
        ],
    };
    let result = transformer.transform(vital_data);
    assert_eq!(result.rooms.len(), 2);
    assert_eq!(result.all_tracks.len(), 2);
    assert_eq!(result.all_tracks[0].room_name, "BED_01");
    assert_eq!(result.all_tracks[1].room_name, "BED_02");
    assert_eq!(result.all_tracks[1].room_index, 1);
}

#[test]
fn test_transform_multiple_records() {
    let transformer = VitalDataTransformer::new();
    let vital_data = VitalData {
        vr_code: "VR-TEST".to_string(),
        rooms: vec![room(0, "BED_01", vec![track("1", "HR", Some("num"), Some("bpm"), vec![
            record(num(75.0), Some(1234567890)),
            record(num(76.0), Some(1234567891)),
            record(num(74.0), Some(1234567892)),
        ])])],
    };
    let result = transformer.transform(vital_data);
    assert_eq!(result.all_tracks.len(), 3);
    assert_eq!(result.all_tracks[0].raw_value, Some(F(75.0)));
    assert_eq!(result.all_tracks[1].raw_value, Some(F(76.0)));
    assert_eq!(result.all_tracks[2].raw_value, Some(F(74.0)));
    assert_eq!(result.all_tracks[2].record_index, 2);
}

#[test]
fn test_transform_missing_fields() {
    let transformer = VitalDataTransformer::new();
    let vital_data = VitalData {
        vr_code: "VR-TEST".to_string(),
        rooms: vec![VitalRoom {
            seq_id: None,
            room_name: None,
            tracks: vec![VitalTrack {
                id: None,
                name: None,
                track_type: None,
                unit: None,
                mon_type: None,
                display_name: None,
                sample_rate: None,
                records: vec![record(num(100.0), None)],
            }],
            events: vec![],
        }],
    };
    let result = transformer.transform_at(vital_data, 42);
    assert_eq!(result.rooms.len(), 1);
    assert_eq!(result.all_tracks.len(), 1);
    let track = &result.all_tracks[0];
    assert!(!track.room_name.is_empty(), "Room name should be generated");
    assert!(!track.name.is_empty(), "Track name should be generated");
    assert_eq!(track.unit, "");
    assert_eq!(track.room_name, "Room_0");
    assert_eq!(track.name, "Track_0_0");
    assert_eq!(track.timestamp, 42);
}

#[test]
fn test_waveform_statistics() {
    let transformer = VitalDataTransformer::new();
    let vital_data = VitalData {
        vr_code: "VR-TEST".to_string(),
        rooms: vec![room(0, "BED_01", vec![track("1", "PLETH", Some("wav"), Some(""), vec![record(array(&[-5.0, 0.0, 10.0, 20.0, 15.0]), Some(1234567890))])])],
    };
    let result = transformer.transform(vital_data);
    let track = &result.all_tracks[0];
    let stats = track.waveform_stats.as_ref().unwrap();
    assert_eq!(stats.min, F(-5.0));
    assert_eq!(stats.max, F(20.0));
    assert_eq!(stats.avg, F(8.0));
    assert_eq!(stats.count, 5);
}

#[test]
fn test_timestamp_handling() {
    let transformer = VitalDataTransformer::new();
    let vital_data = VitalData {
        vr_code: "VR-TEST".to_string(),
        rooms: vec![room(0, "BED_01", vec![track("1", "HR", Some("num"), Some("bpm"), vec![record(num(75.0), Some(1609459200000))])])],
    };
    let result = transformer.transform(vital_data);
    let track = &result.all_tracks[0];
    assert!(track.timestamp > 0);
    assert_eq!(track.timestamp, 1609459200000);
}

#[test]
fn two_rooms_flatten_in_room_order() {
    let transformer = VitalDataTransformer::new();
    let vital_data = VitalData {
        vr_code: "VR".to_string(),
        rooms: vec![
            room(0, "A", vec![track("1", "HR", Some("num"), None, vec![record(num(1.0), None)])]),
            room(1, "B", vec![track("2", "RR", Some("num"), None, vec![record(num(2.0), None)])]),
        ],
    };
    let result = transformer.transform_at(vital_data, 7);
    assert_eq!(result.all_tracks.len(), 2);
    assert_eq!(result.all_tracks[0].name, "HR");
    assert_eq!(result.all_tracks[0].room_name, "A");
    assert_eq!(result.all_tracks[1].name, "RR");
    assert_eq!(result.all_tracks[1].room_name, "B");
    assert_eq!(result.timestamp, 7);
}

#[test]
fn number_renders_three_decimals() {
    let transformer = VitalDataTransformer::new();
    let data = VitalData { vr_code: "VR".to_string(), rooms: vec![room(0, "R", vec![track("1", "HR", None, None, vec![record(num(75.0), Some(1))])])] };
    let t = &transformer.transform_at(data, 0).all_tracks[0];
    assert_eq!(t.track_type, TrackType::Number);
    assert_eq!(t.raw_value, Some(F(75.0)));
    assert_eq!(t.display_value, "75.000");
}

#[test]
fn empty_or_non_numeric_waveform() {
    let transformer = VitalDataTransformer::new();
    let words = RecordValue::Array(vec![None, None], "[\"a\",null]".to_string());
    let data = VitalData {
        vr_code: "VR".to_string(),
        rooms: vec![room(0, "R", vec![track("1", "W", Some("wav"), None, vec![record(array(&[]), None), record(words, None)])])],
    };
    let result = transformer.transform_at(data, 0);
    for t in &result.all_tracks {
        assert_eq!(t.track_type, TrackType::Waveform);
        assert_eq!(t.display_value, "0 points");
        assert!(t.waveform_stats.is_none());
        assert!(t.waveform_points.is_none());
        assert!(t.raw_value.is_none());
    }
}

#[test]
fn non_numeric_samples_are_dropped() {
    let transformer = VitalDataTransformer::new();
    let mixed = RecordValue::Array(vec![Some(F(2.0)), None, Some(F(4.0))], "[2,\"x\",4]".to_string());
    let data = VitalData { vr_code: "VR".to_string(), rooms: vec![room(0, "R", vec![track("1", "W", Some("wav"), None, vec![record(mixed, None)])])] };
    let t = &transformer.transform_at(data, 0).all_tracks[0];
    assert_eq!(t.waveform_points.as_ref().unwrap(), &vec![F(2.0), F(4.0)]);
    assert_eq!(t.waveform_stats.as_ref().unwrap().count, 2);
    assert_eq!(t.display_value, "2 points (2.000 to 4.000, avg: 3.000)");
}

#[test]
fn array_without_wav_hint_is_other() {
    let transformer = VitalDataTransformer::new();
    let data = VitalData {
        vr_code: "VR".to_string(),
        rooms: vec![room(0, "R", vec![track("1", "W", Some("num"), None, vec![
            record(array(&[1.0, 2.0]), None),
            record(RecordValue::Other("true".to_string()), None),
        ])])],
    };
    let result = transformer.transform_at(data, 0);
    assert_eq!(result.all_tracks[0].track_type, TrackType::Other);
    assert_eq!(result.all_tracks[0].display_value, "[1.0,2.0]");
    assert_eq!(result.all_tracks[1].track_type, TrackType::Other);
    assert_eq!(result.all_tracks[1].display_value, "true");
}

#[test]
fn names_fall_back_in_order() {
    let transformer = VitalDataTransformer::new();
    let mut t1 = track("1", "x", None, None, vec![record(num(1.0), None)]);
    t1.name = None;
    t1.display_name = Some("Heart".to_string());
    let mut t2 = track("2", "y", None, None, vec![record(num(1.0), Some(5)), record(num(2.0), None)]);
    t2.name = None;
    let data = VitalData {
        vr_code: "VR".to_string(),
        rooms: vec![room(0, "A", vec![]), VitalRoom { seq_id: None, room_name: None, tracks: vec![t1, t2], events: vec![] }],
    };
    let result = transformer.transform_at(data, 9);
    assert_eq!(result.rooms[1].room_name, "Room_1");
    let names: Vec<&str> = result.all_tracks.iter().map(|t| t.name.as_str()).collect();
    assert_eq!(names, vec!["Heart", "Track_1_1", "Track_1_1"]);
    let coords: Vec<(usize, usize, usize)> = result.all_tracks.iter().map(|t| (t.room_index, t.track_index, t.record_index)).collect();
    assert_eq!(coords, vec![(1, 0, 0), (1, 1, 0), (1, 1, 1)]);
    assert_eq!(result.all_tracks[1].timestamp, 5);
    assert_eq!(result.all_tracks[2].timestamp, 9);
}

#[test]
fn unrepresentable_timestamp_falls_back() {
    let transformer = VitalDataTransformer::new();
    let data = VitalData { vr_code: "VR".to_string(), rooms: vec![room(0, "R", vec![track("1", "HR", None, None, vec![record(num(1.0), Some(i64::MAX))])])] };
    let t = &transformer.transform_at(data, 11).all_tracks[0];
    assert_eq!(t.timestamp, 11);
}

#[test]
fn representable_timestamp_bounds() {
    let transformer = VitalDataTransformer::new();
    let stamps = [MIN_UTC_MILLIS, MAX_UTC_MILLIS, MIN_UTC_MILLIS - 1, MAX_UTC_MILLIS + 1, i64::MIN];
    let records = stamps.iter().map(|t| record(num(1.0), Some(*t))).collect();
    let data = VitalData { vr_code: "VR".to_string(), rooms: vec![room(0, "R", vec![track("1", "HR", None, None, records)])] };
    let got: Vec<i64> = transformer.transform_at(data, 3).all_tracks.iter().map(|t| t.timestamp).collect();
    assert_eq!(got, vec![MIN_UTC_MILLIS, MAX_UTC_MILLIS, 3, 3, 3]);
}
