use vrconnect::domain::{
    ProcessedData, ProcessedRoom, ProcessedTrack, RecordValue, TrackType, VitalRecord,
    WaveformStats,
};

fn number_track(name: &str, value: f64, unit: &str, room_index: usize, room_name: &str) -> ProcessedTrack<f64> {
    ProcessedTrack {
        name: name.to_string(),
        display_value: format!("{:.3}", value),
        raw_value: Some(value),
        unit: unit.to_string(),
        timestamp: 1_700_000_000_000,
        room_index,
        room_name: room_name.to_string(),
        track_index: 0,
        record_index: 0,
        track_type: TrackType::Number,
        waveform_stats: None,
        waveform_points: None,
    }
}

#[test]
fn test_processed_data_new() {
    let track1 = number_track("HR", 75.0, "bpm", 0, "BED_01");
    let room = ProcessedRoom {
        room_index: 0,
        room_name: "BED_01".to_string(),
        tracks: vec![track1.clone()],
    };
    let data = ProcessedData::new("VR-TEST".to_string(), vec![room], 5);
    assert_eq!(data.device_id, "VR-TEST");
    assert_eq!(data.rooms.len(), 1);
    assert_eq!(data.all_tracks.len(), 1);
    assert_eq!(data.all_tracks[0].name, "HR");
    assert_eq!(data.all_tracks[0].display_value, "75.000");
    assert_eq!(data.timestamp, 5);
}

#[test]
fn test_processed_data_multiple_rooms() {
    let track1 = number_track("HR", 75.0, "bpm", 0, "BED_01");
    let track2 = number_track("SpO2", 98.0, "%", 1, "BED_02");
    let room1 = ProcessedRoom { room_index: 0, room_name: "BED_01".to_string(), tracks: vec![track1] };
    let room2 = ProcessedRoom { room_index: 1, room_name: "BED_02".to_string(), tracks: vec![track2] };
    let data = ProcessedData::new("VR-TEST".to_string(), vec![room1, room2], 0);
    assert_eq!(data.rooms.len(), 2);
    assert_eq!(data.all_tracks.len(), 2);
    assert_eq!(data.all_tracks[0].room_name, "BED_01");
    assert_eq!(data.all_tracks[1].room_name, "BED_02");
    assert_eq!(data.all_tracks[1].display_value, "98.000");
}

#[test]
fn test_processed_track_number() {
    let track = number_track("HR", 75.0, "bpm", 0, "BED_01");
    assert_eq!(track.track_type, TrackType::Number);
    assert_eq!(track.raw_value, Some(75.0));
    assert!(track.waveform_stats.is_none());
    assert!(track.waveform_points.is_none());
    assert!(!track.is_waveform());
}

#[test]
fn test_processed_track_waveform() {
    let points = vec![1.0, 2.0, 3.0, 4.0, 5.0];
    let stats = WaveformStats { min: 1.0, max: 5.0, avg: 3.0, count: 5 };
    let track = ProcessedTrack {
        name: "ECG".to_string(),
        display_value: "5 points (1.000 to 5.000, avg: 3.000)".to_string(),
        raw_value: None,
        unit: "mV".to_string(),
        timestamp: 0,
        room_index: 0,
        room_name: "BED_01".to_string(),
        track_index: 0,
        record_index: 0,
        track_type: TrackType::Waveform,
        waveform_stats: Some(stats),
        waveform_points: Some(points.clone()),
    };
    assert_eq!(track.track_type, TrackType::Waveform);
    assert!(track.is_waveform());
    assert!(track.raw_value.is_none());
    assert!(track.waveform_stats.is_some());
    assert_eq!(track.waveform_points.as_ref().unwrap().len(), 5);
    let stored_stats = track.waveform_stats.unwrap();
    assert_eq!(stored_stats.min, 1.0);
    assert_eq!(stored_stats.max, 5.0);
    assert_eq!(stored_stats.avg, 3.0);
    assert_eq!(stored_stats.count, 5);
}

#[test]
fn test_processed_track_string() {
    let track: ProcessedTrack<f64> = ProcessedTrack {
        name: "ALARM_MSG".to_string(),
        display_value: "HR High".to_string(),
        raw_value: None,
        unit: "".to_string(),
        timestamp: 0,
        room_index: 0,
        room_name: "BED_01".to_string(),
        track_index: 0,
        record_index: 0,
        track_type: TrackType::String,
        waveform_stats: None,
        waveform_points: None,
    };
    assert_eq!(track.track_type, TrackType::String);
    assert_eq!(track.display_value, "HR High");
    assert!(track.raw_value.is_none());
}

#[test]
fn test_processed_data_empty_rooms() {
    let data: ProcessedData<f64> = ProcessedData::new("VR-EMPTY".to_string(), vec![], 0);
    assert_eq!(data.device_id, "VR-EMPTY");
    assert_eq!(data.rooms.len(), 0);
    assert_eq!(data.all_tracks.len(), 0);
}

#[test]
fn test_get_effective_timestamp() {
    let record1 = VitalRecord { value: RecordValue::Number(75.0), timestamp: Some(1000), time: Some(2000) };
    assert_eq!(record1.get_effective_timestamp(), Some(1000));
    let record2 = VitalRecord { value: RecordValue::Number(75.0), timestamp: None, time: Some(2000) };
    assert_eq!(record2.get_effective_timestamp(), Some(2000));
    let record3 = VitalRecord { value: RecordValue::Number(75.0), timestamp: None, time: None };
    assert_eq!(record3.get_effective_timestamp(), None);
}

#[test]
fn non_waveform_tracks_keep_order() {
    let mut wave = number_track("ECG", 1.0, "mV", 0, "BED_01");
    wave.track_type = TrackType::Waveform;
    wave.raw_value = None;
    let a = number_track("HR", 75.0, "bpm", 0, "BED_01");
    let b = number_track("SpO2", 98.0, "%", 0, "BED_01");
    let room = ProcessedRoom { room_index: 0, room_name: "BED_01".to_string(), tracks: vec![a, wave, b] };
    let data = ProcessedData::new("VR".to_string(), vec![room], 0);
    let kept = data.get_non_waveform_tracks();
    assert_eq!(kept.len(), 2);
    assert_eq!(kept[0].name, "HR");
    assert_eq!(kept[1].name, "SpO2");
}

#[test]
fn flat_list_counts_every_room() {
    let r1 = ProcessedRoom {
        room_index: 0,
        room_name: "A".to_string(),
        tracks: vec![number_track("x", 1.0, "", 0, "A"), number_track("y", 2.0, "", 0, "A")],
    };
    let r2 = ProcessedRoom { room_index: 1, room_name: "B".to_string(), tracks: vec![] };
    let r3 = ProcessedRoom {
        room_index: 2,
        room_name: "C".to_string(),
        tracks: vec![number_track("z", 3.0, "", 2, "C")],
    };
    let data = ProcessedData::new("VR".to_string(), vec![r1, r2, r3], 0);
    let names: Vec<&str> = data.all_tracks.iter().map(|t| t.name.as_str()).collect();
    assert_eq!(names, vec!["x", "y", "z"]);
}
