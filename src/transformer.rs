use crate::domain::{
    effective_timestamp, flatten_rooms, lemma_flatten_invariants, lemma_flatten_len,
    total_tracks, track_invariants, track_views, ProcessedData, ProcessedRoom, ProcessedTrack,
    RecordValue, TrackType, TrackView, VitalData, VitalRecord, VitalRoom, VitalTrack,
    WaveformStats,
};
use crate::text::{append_decimal, chars_of, decimal};
use chrono::TimeZone;
use vstd::prelude::*;

verus! {

/// The arithmetic on wire numbers that the transformation needs. Numbers
/// are opaque to the library; whoever parses the wire text supplies them.
pub trait Sample: Sized + Copy {
    /// The number rendered with exactly three fractional digits.
    fn fixed3(&self) -> String;

    /// Minimum, maximum and arithmetic mean of a non-empty list.
    fn summarize(points: &Vec<Self>) -> (r: (Self, Self, Self))
        requires
            points.len() > 0,
    ;
}

/// The first and last millisecond that chrono's UTC calendar represents:
/// -262143-01-01T00:00:00.000 and +262142-12-31T23:59:59.999.
pub const MIN_UTC_MILLIS: i64 = -8_334_601_228_800_000;

pub const MAX_UTC_MILLIS: i64 = 8_210_266_876_799_999;

/// Whether `ms` milliseconds after the epoch is an instant that chrono's
/// UTC calendar can represent.
pub open spec fn utc_millis_valid(ms: i64) -> bool {
    MIN_UTC_MILLIS <= ms <= MAX_UTC_MILLIS
}

/// Relies on chrono's `TimeZone::timestamp_millis_opt` for `Utc`
/// (`DateTime::from_timestamp_millis`, `NaiveDate::from_num_days_from_ce_opt`,
/// years -262143 to 262142): whether the milliseconds name a single
/// representable instant.
#[verifier::external_body]
fn millis_representable(ms: i64) -> (r: bool)
    ensures
        r == utc_millis_valid(ms),
{
    chrono::Utc.timestamp_millis_opt(ms).single().is_some()
}

/// Relies on chrono's `Utc::now`: the wall-clock time, in milliseconds since
/// the epoch.
#[verifier::external_body]
fn now_millis() -> (r: i64) {
    chrono::Utc::now().timestamp_millis()
}

// ---------------------------------------------------------------------------
// What the transformation yields.
// ---------------------------------------------------------------------------

/// The numbers among an array's elements, in order.
pub open spec fn numeric_samples<N>(elems: Seq<Option<N>>) -> Seq<N>
    decreases elems.len(),
{
    if elems.len() == 0 {
        seq![]
    } else {
        let rest = numeric_samples(elems.drop_last());
        match elems.last() {
            Some(n) => rest.push(n),
            None => rest,
        }
    }
}

/// The track's type hint is `wav`.
pub open spec fn is_wav_hint(hint: Option<String>) -> bool {
    match hint {
        Some(h) => h@ == seq!['w', 'a', 'v'],
        None => false,
    }
}

/// The class of a record's value under its track's hint.
pub open spec fn record_kind<N>(value: RecordValue<N>, wav: bool) -> TrackType {
    match value {
        RecordValue::Number(_) => TrackType::Number,
        RecordValue::Text(_) => TrackType::String,
        RecordValue::Array(_, _) => if wav {
            TrackType::Waveform
        } else {
            TrackType::Other
        },
        RecordValue::Other(_) => TrackType::Other,
    }
}

/// The room's name, else `Room_<room index>`.
pub open spec fn room_name_of<N>(room: VitalRoom<N>, ri: int) -> Seq<char> {
    match room.room_name {
        Some(n) => n@,
        None => "Room_"@ + decimal(ri as nat),
    }
}

/// The track's name, else its display name, else
/// `Track_<room index>_<track index>`.
pub open spec fn track_name_of<N>(track: VitalTrack<N>, ri: int, ti: int) -> Seq<char> {
    match track.name {
        Some(n) => n@,
        None => match track.display_name {
            Some(d) => d@,
            None => "Track_"@ + decimal(ri as nat) + "_"@ + decimal(ti as nat),
        },
    }
}

pub open spec fn unit_of<N>(track: VitalTrack<N>) -> Seq<char> {
    match track.unit {
        Some(u) => u@,
        None => seq![],
    }
}

/// The record's effective timestamp where chrono can represent it, else the
/// capture instant.
pub open spec fn resolved_timestamp<N>(rec: VitalRecord<N>, now: i64) -> i64 {
    match effective_timestamp(rec) {
        Some(t) => if utc_millis_valid(t) {
            t
        } else {
            now
        },
        None => now,
    }
}

/// The display text of a waveform with samples, given the renderings of its
/// minimum, maximum and mean.
pub open spec fn waveform_display(count: nat, lo: Seq<char>, hi: Seq<char>, avg: Seq<char>) -> Seq<
    char,
> {
    decimal(count) + " points ("@ + lo + " to "@ + hi + ", avg: "@ + avg + ")"@
}

/// How the value fields of a processed track follow from the record's value.
/// The renderings of numbers, and the statistics over them, come from the
/// numbers' own arithmetic.
pub open spec fn value_fields_ok<N>(t: TrackView<N>, value: RecordValue<N>, wav: bool) -> bool {
    &&& t.track_type == record_kind(value, wav)
    &&& match value {
        RecordValue::Number(n) => {
            &&& t.raw_value == Some(n)
            &&& t.waveform_stats is None
            &&& t.waveform_points is None
        },
        RecordValue::Text(s) => {
            &&& t.display_value == s@
            &&& t.raw_value is None
            &&& t.waveform_stats is None
            &&& t.waveform_points is None
        },
        RecordValue::Other(j) => {
            &&& t.display_value == j@
            &&& t.raw_value is None
            &&& t.waveform_stats is None
            &&& t.waveform_points is None
        },
        RecordValue::Array(elems, j) => {
            let pts = numeric_samples(elems@);
            &&& t.raw_value is None
            &&& if !wav {
                &&& t.display_value == j@
                &&& t.waveform_stats is None
                &&& t.waveform_points is None
            } else if pts.len() == 0 {
                &&& t.display_value == "0 points"@
                &&& t.waveform_stats is None
                &&& t.waveform_points is None
            } else {
                &&& t.waveform_points == Some(pts)
                &&& t.waveform_stats matches Some(s) && s.count == pts.len()
                &&& exists|lo: Seq<char>, hi: Seq<char>, avg: Seq<char>|
                    #[trigger] waveform_display(pts.len(), lo, hi, avg) == t.display_value
            }
        },
    }
}

/// A processed track made from record `rj` of track `ti` of room `ri`.
pub open spec fn track_ok<N>(
    t: TrackView<N>,
    track: VitalTrack<N>,
    rec: VitalRecord<N>,
    ri: int,
    room_name: Seq<char>,
    ti: int,
    rj: int,
    now: i64,
) -> bool {
    &&& t.name == track_name_of(track, ri, ti)
    &&& t.unit == unit_of(track)
    &&& t.timestamp == resolved_timestamp(rec, now)
    &&& t.room_index == ri
    &&& t.room_name == room_name
    &&& t.track_index == ti
    &&& t.record_index == rj
    &&& value_fields_ok(t, rec.value, is_wav_hint(track.track_type))
}

/// The number of records in the first `k` tracks.
pub open spec fn records_before<N>(tracks: Seq<VitalTrack<N>>, k: int) -> nat
    decreases k,
{
    if k <= 0 {
        0
    } else {
        records_before(tracks, k - 1) + tracks[k - 1].records@.len()
    }
}

/// Where record `rj` of track `ti` stands in its room's processed list.
pub open spec fn flat_index<N>(tracks: Seq<VitalTrack<N>>, ti: int, rj: int) -> int {
    records_before(tracks, ti) + rj
}

/// A processed room made from room `ri`: one processed track per record, in
/// track order then record order.
pub open spec fn room_ok<N>(pr: ProcessedRoom<N>, room: VitalRoom<N>, ri: int, now: i64) -> bool {
    let ts = room.tracks@;
    &&& pr.room_index == ri
    &&& pr.room_name@ == room_name_of(room, ri)
    &&& pr.tracks@.len() == records_before(ts, ts.len() as int)
    &&& forall|p: int| 0 <= p < pr.tracks@.len() ==> track_invariants(#[trigger] pr.tracks@[p]@)
    &&& forall|ti: int, rj: int|
        0 <= ti < ts.len() && 0 <= rj < ts[ti].records@.len() ==> track_ok(
            pr.tracks@[#[trigger] flat_index(ts, ti, rj)]@,
            ts[ti],
            ts[ti].records@[rj],
            ri,
            room_name_of(room, ri),
            ti,
            rj,
            now,
        )
}

/// The snapshot made from `data` with capture instant `now`.
pub open spec fn transformed<N>(data: VitalData<N>, r: ProcessedData<N>, now: i64) -> bool {
    &&& r.device_id == data.vr_code
    &&& r.timestamp == now
    &&& r.rooms@.len() == data.rooms@.len()
    &&& forall|ri: int|
        0 <= ri < data.rooms@.len() ==> room_ok(#[trigger] r.rooms@[ri], data.rooms@[ri], ri, now)
    &&& track_views(r.all_tracks@) == flatten_rooms(r.rooms@)
}

proof fn lemma_records_before_mono<N>(tracks: Seq<VitalTrack<N>>, a: int, b: int)
    requires
        0 <= a <= b,
    ensures
        records_before(tracks, a) <= records_before(tracks, b),
    decreases b - a,
{
    if a < b {
        lemma_records_before_mono(tracks, a, b - 1);
    }
}

/// Value fields made from a record's value keep the track invariants.
pub proof fn lemma_value_fields_invariants<N>(t: TrackView<N>, value: RecordValue<N>, wav: bool)
    requires
        value_fields_ok(t, value, wav),
    ensures
        track_invariants(t),
{
}

/// The number of records over all rooms.
pub open spec fn total_records<N>(rooms: Seq<VitalRoom<N>>) -> nat
    decreases rooms.len(),
{
    if rooms.len() == 0 {
        0
    } else {
        total_records(rooms.drop_last()) + records_before(
            rooms.last().tracks@,
            rooms.last().tracks@.len() as int,
        )
    }
}

proof fn lemma_counts_agree<N>(data: VitalData<N>, r: ProcessedData<N>, now: i64, k: int)
    requires
        transformed(data, r, now),
        0 <= k <= data.rooms@.len(),
    ensures
        total_tracks(r.rooms@.take(k)) == total_records(data.rooms@.take(k)),
    decreases k,
{
    if k > 0 {
        lemma_counts_agree(data, r, now, k - 1);
        assert(r.rooms@.take(k).drop_last() == r.rooms@.take(k - 1));
        assert(data.rooms@.take(k).drop_last() == data.rooms@.take(k - 1));
        assert(room_ok(r.rooms@[k - 1], data.rooms@[k - 1], k - 1, now));
    }
}

/// Every snapshot that `transform` builds keeps the data-model invariants:
/// each flat track has a raw value exactly when it is a number, and
/// statistics with samples only when it is a waveform with samples; and the
/// flat list has one entry per record of the message, the sum of the rooms'
/// track counts.
pub proof fn lemma_transform_invariants<N>(data: VitalData<N>, r: ProcessedData<N>, now: i64)
    requires
        transformed(data, r, now),
    ensures
        forall|i: int|
            0 <= i < r.all_tracks@.len() ==> track_invariants(#[trigger] r.all_tracks@[i]@),
        r.all_tracks@.len() == total_tracks(r.rooms@),
        r.all_tracks@.len() == total_records(data.rooms@),
{
    assert forall|k: int, p: int|
        0 <= k < r.rooms@.len() && 0 <= p < r.rooms@[k].tracks@.len() implies track_invariants(
        #[trigger] r.rooms@[k].tracks@[p]@,
    ) by {
        assert(room_ok(r.rooms@[k], data.rooms@[k], k, now));
    }
    lemma_flatten_invariants(r.rooms@);
    lemma_flatten_len(r.rooms@);
    assert forall|i: int| 0 <= i < r.all_tracks@.len() implies track_invariants(
        #[trigger] r.all_tracks@[i]@,
    ) by {
        assert(track_views(r.all_tracks@)[i] == r.all_tracks@[i]@);
    }
    lemma_counts_agree(data, r, now, data.rooms@.len() as int);
    assert(r.rooms@.take(r.rooms@.len() as int) == r.rooms@);
    assert(data.rooms@.take(data.rooms@.len() as int) == data.rooms@);
}

// ---------------------------------------------------------------------------
// The transformation.
// ---------------------------------------------------------------------------

fn is_wav(hint: &Option<String>) -> (r: bool)
    ensures
        r == is_wav_hint(*hint),
{
    match hint {
        Some(h) => {
            let cs = chars_of(h.as_str());
            if cs.len() == 3 && cs[0] == 'w' && cs[1] == 'a' && cs[2] == 'v' {
                assert(cs@ == seq!['w', 'a', 'v']);
                true
            } else {
                false
            }
        },
        None => false,
    }
}

fn extract_samples<N: Copy>(elems: &Vec<Option<N>>) -> (r: Vec<N>)
    ensures
        r@ == numeric_samples(elems@),
{
    let mut out: Vec<N> = Vec::new();
    let mut k: usize = 0;
    while k < elems.len()
        invariant
            k <= elems.len(),
            out@ == numeric_samples(elems@.take(k as int)),
        decreases elems.len() - k,
    {
        assert(elems@.take(k + 1).drop_last() == elems@.take(k as int));
        assert(elems@.take(k + 1).last() == elems@[k as int]);
        match &elems[k] {
            Some(n) => out.push(*n),
            None => {},
        }
        k = k + 1;
    }
    assert(elems@.take(elems.len() as int) == elems@);
    out
}

fn room_name_for<N>(room: &VitalRoom<N>, ri: usize) -> (r: String)
    ensures
        r@ == room_name_of(*room, ri as int),
{
    match &room.room_name {
        Some(n) => n.clone(),
        None => {
            let mut s = String::from_str("Room_");
            append_decimal(&mut s, ri as u64);
            s
        },
    }
}

fn track_name_for<N>(track: &VitalTrack<N>, ri: usize, ti: usize) -> (r: String)
    ensures
        r@ == track_name_of(*track, ri as int, ti as int),
{
    match &track.name {
        Some(n) => n.clone(),
        None => match &track.display_name {
            Some(d) => d.clone(),
            None => {
                let mut s = String::from_str("Track_");
                append_decimal(&mut s, ri as u64);
                s.append("_");
                append_decimal(&mut s, ti as u64);
                s
            },
        },
    }
}

/// The value fields of a processed track: kind, display text, raw value,
/// statistics and samples.
fn process_value<N: Sample>(value: &RecordValue<N>, wav: bool) -> (r: (
    TrackType,
    String,
    Option<N>,
    Option<WaveformStats<N>>,
    Option<Vec<N>>,
))
    ensures
        value_fields_ok(
            TrackView {
                name: seq![],
                display_value: r.1@,
                raw_value: r.2,
                unit: seq![],
                timestamp: 0,
                room_index: 0,
                room_name: seq![],
                track_index: 0,
                record_index: 0,
                track_type: r.0,
                waveform_stats: r.3,
                waveform_points: match r.4 {
                    Some(p) => Some(p@),
                    None => None,
                },
            },
            *value,
            wav,
        ),
{
    match value {
        RecordValue::Number(n) => (TrackType::Number, n.fixed3(), Some(*n), None, None),
        RecordValue::Text(s) => (TrackType::String, s.clone(), None, None, None),
        RecordValue::Other(j) => (TrackType::Other, j.clone(), None, None, None),
        RecordValue::Array(elems, j) => {
            if !wav {
                (TrackType::Other, j.clone(), None, None, None)
            } else {
                process_waveform(elems)
            }
        },
    }
}

/// Statistics and display text of a waveform record.
fn process_waveform<N: Sample>(elems: &Vec<Option<N>>) -> (r: (
    TrackType,
    String,
    Option<N>,
    Option<WaveformStats<N>>,
    Option<Vec<N>>,
))
    ensures
        r.0 == TrackType::Waveform,
        r.2 is None,
        ({
            let pts = numeric_samples(elems@);
            if pts.len() == 0 {
                &&& r.1@ == "0 points"@
                &&& r.3 is None
                &&& r.4 is None
            } else {
                &&& r.4 matches Some(p) && p@ == pts
                &&& r.3 matches Some(s) && s.count == pts.len()
                &&& exists|lo: Seq<char>, hi: Seq<char>, avg: Seq<char>|
                    #[trigger] waveform_display(pts.len(), lo, hi, avg) == r.1@
            }
        }),
{
    let points = extract_samples(elems);
    if points.len() == 0 {
        return (TrackType::Waveform, String::from_str("0 points"), None, None, None);
    }
    let (min, max, avg) = N::summarize(&points);
    let count = points.len();
    let lo = min.fixed3();
    let hi = max.fixed3();
    let mean = avg.fixed3();
    let mut display = String::new();
    append_decimal(&mut display, count as u64);
    display.append(" points (");
    display.append(lo.as_str());
    display.append(" to ");
    display.append(hi.as_str());
    display.append(", avg: ");
    display.append(mean.as_str());
    display.append(")");
    assert(waveform_display(count as nat, lo@, hi@, mean@) == display@);
    let stats = WaveformStats { min, max, avg, count };
    (TrackType::Waveform, display, None, Some(stats), Some(points))
}

/// The processed track for record `rj` of track `ti` of room `ri`.
fn process_track<N: Sample>(
    track: &VitalTrack<N>,
    record: &VitalRecord<N>,
    ri: usize,
    room_name: &String,
    ti: usize,
    rj: usize,
    now: i64,
) -> (r: ProcessedTrack<N>)
    ensures
        track_ok(r@, *track, *record, ri as int, room_name@, ti as int, rj as int, now),
{
    let name = track_name_for(track, ri, ti);
    let unit = match &track.unit {
        Some(u) => u.clone(),
        None => String::new(),
    };
    let wav = is_wav(&track.track_type);
    let (kind, display, raw, stats, points) = process_value(&record.value, wav);
    let timestamp = match record.get_effective_timestamp() {
        Some(t) => if millis_representable(t) {
            t
        } else {
            now
        },
        None => now,
    };
    let r = ProcessedTrack {
        name,
        display_value: display,
        raw_value: raw,
        unit,
        timestamp,
        room_index: ri,
        room_name: room_name.clone(),
        track_index: ti,
        record_index: rj,
        track_type: kind,
        waveform_stats: stats,
        waveform_points: points,
    };
    r
}

/// The processed room for room `ri`.
fn process_room<N: Sample>(room: &VitalRoom<N>, ri: usize, now: i64) -> (r: ProcessedRoom<N>)
    ensures
        room_ok(r, *room, ri as int, now),
{
    let room_name = room_name_for(room, ri);
    let ghost ts = room.tracks@;
    let mut out: Vec<ProcessedTrack<N>> = Vec::new();
    let mut ti: usize = 0;
    while ti < room.tracks.len()
        invariant
            ts == room.tracks@,
            ti <= ts.len(),
            room_name@ == room_name_of(*room, ri as int),
            out@.len() == records_before(ts, ti as int),
            forall|p: int| 0 <= p < out@.len() ==> track_invariants(#[trigger] out@[p]@),
            forall|t2: int, r2: int|
                0 <= t2 < ti && 0 <= r2 < ts[t2].records@.len() ==> track_ok(
                    out@[#[trigger] flat_index(ts, t2, r2)]@,
                    ts[t2],
                    ts[t2].records@[r2],
                    ri as int,
                    room_name@,
                    t2,
                    r2,
                    now,
                ),
        decreases ts.len() - ti,
    {
        let track = &room.tracks[ti];
        let mut rj: usize = 0;
        while rj < track.records.len()
            invariant
                ts == room.tracks@,
                ti < ts.len(),
                *track == ts[ti as int],
                rj <= track.records@.len(),
                out@.len() == records_before(ts, ti as int) + rj,
                forall|p: int| 0 <= p < out@.len() ==> track_invariants(#[trigger] out@[p]@),
                forall|t2: int, r2: int|
                    0 <= t2 < ti && 0 <= r2 < ts[t2].records@.len() ==> track_ok(
                        out@[#[trigger] flat_index(ts, t2, r2)]@,
                        ts[t2],
                        ts[t2].records@[r2],
                        ri as int,
                        room_name@,
                        t2,
                        r2,
                        now,
                    ),
                forall|r2: int|
                    0 <= r2 < rj ==> track_ok(
                        out@[#[trigger] flat_index(ts, ti as int, r2)]@,
                        ts[ti as int],
                        ts[ti as int].records@[r2],
                        ri as int,
                        room_name@,
                        ti as int,
                        r2,
                        now,
                    ),
            decreases track.records.len() - rj,
        {
            let pt = process_track(track, &track.records[rj], ri, &room_name, ti, rj, now);
            let ghost prev = out@;
            proof {
                lemma_value_fields_invariants(pt@, track.records@[rj as int].value, is_wav_hint(track.track_type));
            }
            out.push(pt);
            assert forall|p: int| 0 <= p < out@.len() implies track_invariants(
                #[trigger] out@[p]@,
            ) by {
                if p < prev.len() {
                    assert(out@[p] == prev[p]);
                }
            }
            assert forall|t2: int, r2: int|
                0 <= t2 < ti && 0 <= r2 < ts[t2].records@.len() implies track_ok(
                out@[#[trigger] flat_index(ts, t2, r2)]@,
                ts[t2],
                ts[t2].records@[r2],
                ri as int,
                room_name@,
                t2,
                r2,
                now,
            ) by {
                lemma_records_before_mono(ts, t2 + 1, ti as int);
                assert(prev[flat_index(ts, t2, r2)] == out@[flat_index(ts, t2, r2)]);
            }
            assert forall|r2: int| 0 <= r2 < rj + 1 implies track_ok(
                out@[#[trigger] flat_index(ts, ti as int, r2)]@,
                ts[ti as int],
                ts[ti as int].records@[r2],
                ri as int,
                room_name@,
                ti as int,
                r2,
                now,
            ) by {
                if r2 < rj {
                    assert(prev[flat_index(ts, ti as int, r2)] == out@[flat_index(
                        ts,
                        ti as int,
                        r2,
                    )]);
                }
            }
            rj = rj + 1;
        }
        assert forall|t2: int, r2: int|
            0 <= t2 < ti + 1 && 0 <= r2 < ts[t2].records@.len() implies track_ok(
            out@[#[trigger] flat_index(ts, t2, r2)]@,
            ts[t2],
            ts[t2].records@[r2],
            ri as int,
            room_name@,
            t2,
            r2,
            now,
        ) by {
            if t2 == ti {
                assert(flat_index(ts, ti as int, r2) == flat_index(ts, t2, r2));
            }
        }
        ti = ti + 1;
    }
    ProcessedRoom { room_index: ri, room_name, tracks: out }
}

/// Classifies every record of every track of every room and builds the
/// typed snapshot.
#[derive(Clone, Copy, Debug)]
pub struct VitalDataTransformer;

impl VitalDataTransformer {
    pub fn new() -> (r: Self)
        ensures
            r == VitalDataTransformer,
    {
        VitalDataTransformer
    }

    /// The snapshot of `vital_data`, with the current wall-clock time as the
    /// capture instant and as the fallback for records without a usable
    /// timestamp.
    pub fn transform<N: Sample>(&self, vital_data: VitalData<N>) -> (r: ProcessedData<N>)
        ensures
            transformed(vital_data, r, r.timestamp),
    {
        let now = now_millis();
        self.transform_at(vital_data, now)
    }

    /// The snapshot of `vital_data` captured at `now` (epoch milliseconds):
    /// one processed track per record, in room, track and record order.
    pub fn transform_at<N: Sample>(&self, vital_data: VitalData<N>, now: i64) -> (r:
        ProcessedData<N>)
        ensures
            transformed(vital_data, r, now),
    {
        let mut rooms: Vec<ProcessedRoom<N>> = Vec::new();
        let mut ri: usize = 0;
        while ri < vital_data.rooms.len()
            invariant
                ri <= vital_data.rooms@.len(),
                rooms@.len() == ri,
                forall|k: int|
                    0 <= k < ri ==> room_ok(#[trigger] rooms@[k], vital_data.rooms@[k], k, now),
            decreases vital_data.rooms.len() - ri,
        {
            let pr = process_room(&vital_data.rooms[ri], ri, now);
            rooms.push(pr);
            ri = ri + 1;
        }
        ProcessedData::new(vital_data.vr_code, rooms, now)
    }
}

impl Default for VitalDataTransformer {
    fn default() -> (r: Self)
        ensures
            r == VitalDataTransformer,
    {
        VitalDataTransformer
    }
}

} // verus!
