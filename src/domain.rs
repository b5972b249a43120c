use vstd::prelude::*;

verus! {

// ---------------------------------------------------------------------------
// Wire model: the vendor schema, as parsed from repaired JSON text. Numbers
// are of the caller's type `N`: the library never looks inside them.
// ---------------------------------------------------------------------------

/// The value of one record, by its JSON shape.
#[derive(Clone, Debug)]
pub enum RecordValue<N> {
    /// A JSON number.
    Number(N),
    /// A JSON string.
    Text(String),
    /// A JSON array: each element as a number, or `None` where it is not
    /// one, and the array's compact JSON text.
    Array(Vec<Option<N>>, String),
    /// Any other JSON value (object, boolean, null), as compact JSON text.
    Other(String),
}

/// One timestamped sample, or waveform burst, of a track.
#[derive(Clone, Debug)]
pub struct VitalRecord<N> {
    pub value: RecordValue<N>,
    /// Primary timestamp in epoch milliseconds (`dt`).
    pub timestamp: Option<i64>,
    /// Secondary timestamp in epoch milliseconds (`time`).
    pub time: Option<i64>,
}

/// One named channel of measurement within a room.
#[derive(Clone, Debug)]
pub struct VitalTrack<N> {
    pub id: Option<String>,
    pub name: Option<String>,
    /// Type hint: `num`, `wav`, `str` or another word.
    pub track_type: Option<String>,
    pub unit: Option<String>,
    pub mon_type: Option<String>,
    pub display_name: Option<String>,
    pub sample_rate: Option<N>,
    pub records: Vec<VitalRecord<N>>,
}

/// An event of a room; carried through untransformed.
#[derive(Clone, Debug, PartialEq, Eq)]
pub struct VitalEvent {
    pub timestamp: Option<i64>,
    pub message: Option<String>,
}

/// A monitoring context (one bed or bay) grouping tracks.
#[derive(Clone, Debug)]
pub struct VitalRoom<N> {
    pub seq_id: Option<i32>,
    pub room_name: Option<String>,
    pub tracks: Vec<VitalTrack<N>>,
    pub events: Vec<VitalEvent>,
}

/// One decoded message: the device code and its rooms.
#[derive(Clone, Debug)]
pub struct VitalData<N> {
    pub vr_code: String,
    pub rooms: Vec<VitalRoom<N>>,
}

/// The effective timestamp of a record: the primary one if present, else
/// the secondary one.
pub open spec fn effective_timestamp<N>(r: VitalRecord<N>) -> Option<i64> {
    match r.timestamp {
        Some(t) => Some(t),
        None => r.time,
    }
}

impl<N> VitalRecord<N> {
    pub fn get_effective_timestamp(&self) -> (r: Option<i64>)
        ensures
            r == effective_timestamp(*self),
    {
        match self.timestamp {
            Some(t) => Some(t),
            None => self.time,
        }
    }
}

// ---------------------------------------------------------------------------
// Processed model: the typed snapshot handed to the outputs.
// ---------------------------------------------------------------------------

/// The class of a processed record.
#[derive(Clone, Copy, Debug, PartialEq, Eq, Structural)]
pub enum TrackType {
    Number,
    Waveform,
    String,
    Other,
}

/// Statistics over the numeric samples of a waveform record.
#[derive(Clone, Copy, Debug)]
pub struct WaveformStats<N> {
    pub min: N,
    pub max: N,
    pub avg: N,
    pub count: usize,
}

/// One processed record, with its room, track and record coordinates.
#[derive(Clone, Debug)]
pub struct ProcessedTrack<N> {
    pub name: String,
    pub display_value: String,
    pub raw_value: Option<N>,
    pub unit: String,
    /// Epoch milliseconds.
    pub timestamp: i64,
    pub room_index: usize,
    pub room_name: String,
    pub track_index: usize,
    pub record_index: usize,
    pub track_type: TrackType,
    pub waveform_stats: Option<WaveformStats<N>>,
    pub waveform_points: Option<Vec<N>>,
}

/// What a processed track holds, as mathematical values.
pub ghost struct TrackView<N> {
    pub name: Seq<char>,
    pub display_value: Seq<char>,
    pub raw_value: Option<N>,
    pub unit: Seq<char>,
    pub timestamp: i64,
    pub room_index: usize,
    pub room_name: Seq<char>,
    pub track_index: usize,
    pub record_index: usize,
    pub track_type: TrackType,
    pub waveform_stats: Option<WaveformStats<N>>,
    pub waveform_points: Option<Seq<N>>,
}

impl<N> View for ProcessedTrack<N> {
    type V = TrackView<N>;

    open spec fn view(&self) -> TrackView<N> {
        TrackView {
            name: self.name@,
            display_value: self.display_value@,
            raw_value: self.raw_value,
            unit: self.unit@,
            timestamp: self.timestamp,
            room_index: self.room_index,
            room_name: self.room_name@,
            track_index: self.track_index,
            record_index: self.record_index,
            track_type: self.track_type,
            waveform_stats: self.waveform_stats,
            waveform_points: match self.waveform_points {
                Some(p) => Some(p@),
                None => None,
            },
        }
    }
}

/// The processed records of one room, in track order then record order.
#[derive(Clone, Debug)]
pub struct ProcessedRoom<N> {
    pub room_index: usize,
    pub room_name: String,
    pub tracks: Vec<ProcessedTrack<N>>,
}

/// One processed message.
#[derive(Clone, Debug)]
pub struct ProcessedData<N> {
    pub device_id: String,
    pub rooms: Vec<ProcessedRoom<N>>,
    /// Every room's tracks, concatenated in room order.
    pub all_tracks: Vec<ProcessedTrack<N>>,
    /// Capture instant, epoch milliseconds.
    pub timestamp: i64,
}

pub open spec fn track_views<N>(ts: Seq<ProcessedTrack<N>>) -> Seq<TrackView<N>> {
    ts.map_values(|t: ProcessedTrack<N>| t@)
}

/// The tracks of all rooms, concatenated in room order.
pub open spec fn flatten_rooms<N>(rooms: Seq<ProcessedRoom<N>>) -> Seq<TrackView<N>>
    decreases rooms.len(),
{
    if rooms.len() == 0 {
        seq![]
    } else {
        flatten_rooms(rooms.drop_last()) + track_views(rooms.last().tracks@)
    }
}

/// The total number of tracks over all rooms.
pub open spec fn total_tracks<N>(rooms: Seq<ProcessedRoom<N>>) -> nat
    decreases rooms.len(),
{
    if rooms.len() == 0 {
        0
    } else {
        total_tracks(rooms.drop_last()) + rooms.last().tracks@.len()
    }
}

/// The flat list has one entry for each track of each room.
pub proof fn lemma_flatten_len<N>(rooms: Seq<ProcessedRoom<N>>)
    ensures
        flatten_rooms(rooms).len() == total_tracks(rooms),
    decreases rooms.len(),
{
    if rooms.len() > 0 {
        lemma_flatten_len(rooms.drop_last());
    }
}

/// The invariants of a processed track: a raw value exactly for numbers;
/// statistics and samples together, only for waveforms, with one sample
/// counted per stored point and at least one point.
pub open spec fn track_invariants<N>(t: TrackView<N>) -> bool {
    &&& (t.raw_value is Some <==> t.track_type == TrackType::Number)
    &&& (t.waveform_stats is Some <==> t.waveform_points is Some)
    &&& (t.waveform_stats is Some ==> t.track_type == TrackType::Waveform)
    &&& (t.waveform_stats matches Some(s) ==> (t.waveform_points matches Some(p) && s.count
        == p.len() && p.len() > 0))
}

/// Where every room's tracks keep the invariants, so does the flat list.
pub proof fn lemma_flatten_invariants<N>(rooms: Seq<ProcessedRoom<N>>)
    requires
        forall|k: int, p: int|
            0 <= k < rooms.len() && 0 <= p < rooms[k].tracks@.len() ==> track_invariants(
                #[trigger] rooms[k].tracks@[p]@,
            ),
    ensures
        forall|i: int|
            0 <= i < flatten_rooms(rooms).len() ==> track_invariants(
                #[trigger] flatten_rooms(rooms)[i],
            ),
    decreases rooms.len(),
{
    if rooms.len() > 0 {
        let init = rooms.drop_last();
        assert forall|k: int, p: int|
            0 <= k < init.len() && 0 <= p < init[k].tracks@.len() implies track_invariants(
            #[trigger] init[k].tracks@[p]@,
        ) by {
            assert(init[k] == rooms[k]);
        }
        lemma_flatten_invariants(init);
        let last = track_views(rooms.last().tracks@);
        let f = flatten_rooms(rooms);
        assert forall|i: int| 0 <= i < f.len() implies track_invariants(#[trigger] f[i]) by {
            let n = flatten_rooms(init).len();
            if i >= n {
                assert(f[i] == last[i - n]);
                assert(rooms[rooms.len() - 1].tracks@[i - n]@ == last[i - n]);
            } else {
                assert(f[i] == flatten_rooms(init)[i]);
            }
        }
    }
}

/// The tracks that are not waveforms, in order.
pub open spec fn non_waveform<N>(ts: Seq<TrackView<N>>) -> Seq<TrackView<N>>
    decreases ts.len(),
{
    if ts.len() == 0 {
        seq![]
    } else if ts.last().track_type == TrackType::Waveform {
        non_waveform(ts.drop_last())
    } else {
        non_waveform(ts.drop_last()).push(ts.last())
    }
}

fn copy_points<N: Copy>(v: &Vec<N>) -> (r: Vec<N>)
    ensures
        r@ == v@,
{
    let mut out: Vec<N> = Vec::new();
    let mut i: usize = 0;
    while i < v.len()
        invariant
            i <= v.len(),
            out@ == v@.take(i as int),
        decreases v.len() - i,
    {
        out.push(v[i]);
        assert(v@.take(i + 1) == v@.take(i as int).push(v@[i as int]));
        i = i + 1;
    }
    assert(v@.take(v.len() as int) == v@);
    out
}

impl<N: Copy> ProcessedTrack<N> {
    /// A copy of this track.
    pub fn copy(&self) -> (r: Self)
        ensures
            r@ == self@,
    {
        ProcessedTrack {
            name: self.name.clone(),
            display_value: self.display_value.clone(),
            raw_value: self.raw_value,
            unit: self.unit.clone(),
            timestamp: self.timestamp,
            room_index: self.room_index,
            room_name: self.room_name.clone(),
            track_index: self.track_index,
            record_index: self.record_index,
            track_type: self.track_type,
            waveform_stats: self.waveform_stats,
            waveform_points: match &self.waveform_points {
                Some(p) => Some(copy_points(p)),
                None => None,
            },
        }
    }
}

impl<N> ProcessedTrack<N> {
    pub fn is_waveform(&self) -> (r: bool)
        ensures
            r == (self.track_type == TrackType::Waveform),
    {
        match self.track_type {
            TrackType::Waveform => true,
            _ => false,
        }
    }
}

impl<N: Copy> ProcessedData<N> {
    /// Builds a snapshot from its rooms, with the flat list of every room's
    /// tracks in room order.
    pub fn new(device_id: String, rooms: Vec<ProcessedRoom<N>>, timestamp: i64) -> (r: Self)
        ensures
            r.device_id == device_id,
            r.rooms@ == rooms@,
            track_views(r.all_tracks@) == flatten_rooms(rooms@),
            r.all_tracks@.len() == total_tracks(rooms@),
            r.timestamp == timestamp,
    {
        let mut all: Vec<ProcessedTrack<N>> = Vec::new();
        let mut i: usize = 0;
        while i < rooms.len()
            invariant
                i <= rooms.len(),
                track_views(all@) == flatten_rooms(rooms@.take(i as int)),
            decreases rooms.len() - i,
        {
            let room = &rooms[i];
            let ghost base = all@;
            let mut j: usize = 0;
            while j < room.tracks.len()
                invariant
                    i < rooms.len(),
                    room == &rooms@[i as int],
                    j <= room.tracks.len(),
                    track_views(base) == flatten_rooms(rooms@.take(i as int)),
                    track_views(all@) == track_views(base) + track_views(
                        room.tracks@.take(j as int),
                    ),
                decreases room.tracks.len() - j,
            {
                let t = room.tracks[j].copy();
                let ghost prev = all@;
                all.push(t);
                assert(track_views(all@) == track_views(prev).push(t@));
                assert(track_views(room.tracks@.take(j + 1)) == track_views(
                    room.tracks@.take(j as int),
                ).push(room.tracks@[j as int]@));
                j = j + 1;
            }
            assert(room.tracks@.take(room.tracks.len() as int) == room.tracks@);
            assert(rooms@.take(i + 1).drop_last() == rooms@.take(i as int));
            assert(rooms@.take(i + 1).last() == rooms@[i as int]);
            i = i + 1;
        }
        assert(rooms@.take(rooms.len() as int) == rooms@);
        proof {
            lemma_flatten_len(rooms@);
        }
        ProcessedData { device_id, rooms, all_tracks: all, timestamp }
    }

    /// The tracks that are not waveforms, in order.
    pub fn get_non_waveform_tracks(&self) -> (r: Vec<ProcessedTrack<N>>)
        ensures
            track_views(r@) == non_waveform(track_views(self.all_tracks@)),
    {
        let mut out: Vec<ProcessedTrack<N>> = Vec::new();
        let mut i: usize = 0;
        while i < self.all_tracks.len()
            invariant
                i <= self.all_tracks.len(),
                track_views(out@) == non_waveform(track_views(self.all_tracks@.take(i as int))),
            decreases self.all_tracks.len() - i,
        {
            let ghost prev = out@;
            assert(track_views(self.all_tracks@.take(i + 1)).drop_last() == track_views(
                self.all_tracks@.take(i as int),
            ));
            if !self.all_tracks[i].is_waveform() {
                let t = self.all_tracks[i].copy();
                out.push(t);
                assert(track_views(out@) == track_views(prev).push(t@));
            }
            i = i + 1;
        }
        assert(self.all_tracks@.take(self.all_tracks.len() as int) == self.all_tracks@);
        out
    }
}

} // verus!
