use vstd::prelude::*;
use std::collections::BTreeMap;

verus! {

broadcast use vstd::std_specs::btree::axiom_spec_keys_iter;

/// An audio file placed on a track's timeline: it plays from frame
/// `tl_start` for `tl_len` frames and was recorded at `src_sr`.
#[derive(Clone, Debug, PartialEq, Eq)]
pub struct Clip {
    pub file_path: String,
    pub src_sr: u32,
    pub tl_start: u64,
    pub tl_len: u64,
}

/// The frame at which a clip stops playing: its start plus its length,
/// held at `u64::MAX` when the sum does not fit.
pub open spec fn clip_end(c: Clip) -> u64 {
    if c.tl_start + c.tl_len > u64::MAX { u64::MAX } else { (c.tl_start + c.tl_len) as u64 }
}

/// `k` is the greatest clip start in `m` that is not after `pos`.
pub open spec fn is_latest_start(m: Map<u64, Clip>, pos: u64, k: u64) -> bool {
    &&& m.contains_key(k)
    &&& k <= pos
    &&& forall|j: u64| #[trigger] m.contains_key(j) && j <= pos ==> j <= k
}

/// `k` is the least clip start in `m` that is after `pos`.
pub open spec fn is_earliest_start_after(m: Map<u64, Clip>, pos: u64, k: u64) -> bool {
    &&& m.contains_key(k)
    &&& pos < k
    &&& forall|j: u64| #[trigger] m.contains_key(j) && pos < j ==> k <= j
}

/// The greatest clip start in `m` that is not after `pos`, if there is one.
pub open spec fn latest_start(m: Map<u64, Clip>, pos: u64) -> Option<u64> {
    if exists|k: u64| is_latest_start(m, pos, k) {
        Some(choose|k: u64| is_latest_start(m, pos, k))
    } else {
        None
    }
}

/// The least clip start in `m` that is after `pos`, if there is one.
pub open spec fn earliest_start_after(m: Map<u64, Clip>, pos: u64) -> Option<u64> {
    if exists|k: u64| is_earliest_start_after(m, pos, k) {
        Some(choose|k: u64| is_earliest_start_after(m, pos, k))
    } else {
        None
    }
}

/// The clip that plays at frame `pos`: the one that started last at or
/// before `pos`, provided it has not ended yet. Clips that started earlier are
/// not looked at, even when they are longer.
pub open spec fn active_clip(m: Map<u64, Clip>, pos: u64) -> Option<u64> {
    match latest_start(m, pos) {
        Some(k) => if pos < clip_end(m[k]) { Some(k) } else { None },
        None => None,
    }
}

/// Only one start can be the latest one.
pub proof fn lemma_latest_start_unique(m: Map<u64, Clip>, pos: u64, k: u64)
    requires
        is_latest_start(m, pos, k),
    ensures
        latest_start(m, pos) == Some(k),
{
    let c = choose|j: u64| is_latest_start(m, pos, j);
    assert(is_latest_start(m, pos, c));
    assert(m.contains_key(k) && k <= pos);
    assert(m.contains_key(c) && c <= pos);
}

/// Only one start can be the earliest one after `pos`.
pub proof fn lemma_earliest_start_unique(m: Map<u64, Clip>, pos: u64, k: u64)
    requires
        is_earliest_start_after(m, pos, k),
    ensures
        earliest_start_after(m, pos) == Some(k),
{
    let c = choose|j: u64| is_earliest_start_after(m, pos, j);
    assert(is_earliest_start_after(m, pos, c));
    assert(m.contains_key(k) && pos < k);
    assert(m.contains_key(c) && pos < c);
}

/// The clips of one track, keyed by the frame at which they start, and the
/// frame up to which the track's ring has been filled.
#[derive(Clone, Debug)]
pub struct TrackTimeline {
    pub clips: BTreeMap<u64, Clip>,
    pub write_pos_frames: u64,
}

/// What a track timeline holds, as plain values.
pub struct TrackView {
    pub clips: Map<u64, Clip>,
    pub write_pos: u64,
}

impl View for TrackTimeline {
    type V = TrackView;

    open spec fn view(&self) -> TrackView {
        TrackView { clips: self.clips@, write_pos: self.write_pos_frames }
    }
}

impl TrackTimeline {
    /// An empty timeline whose ring is filled up to frame 0.
    pub fn new() -> (t: TrackTimeline)
        ensures
            t.clips@ == Map::<u64, Clip>::empty(),
            t.write_pos_frames == 0,
    {
        TrackTimeline { clips: BTreeMap::new(), write_pos_frames: 0 }
    }

    /// The greatest clip start that is not after `pos`, if any.
    pub fn latest_start_at_or_before(&self, pos: u64) -> (r: Option<u64>)
        ensures
            match r {
                Some(k) => is_latest_start(self.clips@, pos, k),
                None => forall|j: u64| #[trigger] self.clips@.contains_key(j) ==> pos < j,
            },
    {
        let mut best: Option<u64> = None;
        for k in it: self.clips.keys()
            invariant
                it.seq().unref().to_set() == self.clips@.dom(),
                forall|i: int|
                    0 <= i < it.index() && *it.seq()[i] <= pos ==> (best matches Some(b) && *it.seq()[i] <= b),
                best matches Some(b) ==> b <= pos && self.clips@.contains_key(b),
        {
            let key = *k;
            if key <= pos {
                match best {
                    Some(b) => {
                        if b < key {
                            best = Some(key);
                        }
                    },
                    None => {
                        best = Some(key);
                    },
                }
            }
        }
        best
    }

    /// The least clip start that is after `pos`, if any.
    pub fn earliest_start_after(&self, pos: u64) -> (r: Option<u64>)
        ensures
            r == earliest_start_after(self.clips@, pos),
            match r {
                Some(k) => is_earliest_start_after(self.clips@, pos, k),
                None => forall|j: u64| #[trigger] self.clips@.contains_key(j) ==> j <= pos,
            },
    {
        let mut best: Option<u64> = None;
        for k in it: self.clips.keys()
            invariant
                it.seq().unref().to_set() == self.clips@.dom(),
                forall|i: int|
                    0 <= i < it.index() && pos < *it.seq()[i] ==> (best matches Some(b) && b <= *it.seq()[i]),
                best matches Some(b) ==> pos < b && self.clips@.contains_key(b),
        {
            let key = *k;
            if pos < key {
                match best {
                    Some(b) => {
                        if key < b {
                            best = Some(key);
                        }
                    },
                    None => {
                        best = Some(key);
                    },
                }
            }
        }
        proof {
            match best {
                Some(b) => {
                    assert(is_earliest_start_after(self.clips@, pos, b));
                    lemma_earliest_start_unique(self.clips@, pos, b);
                },
                None => {
                    assert(forall|j: u64| #[trigger] self.clips@.contains_key(j) ==> !(pos < j));
                },
            }
        }
        best
    }

    /// The start of the clip that plays at frame `pos`, if one does.
    pub fn active_clip_at(&self, pos: u64) -> (r: Option<u64>)
        ensures
            r == active_clip(self.clips@, pos),
            r matches Some(k) ==> self.clips@.contains_key(k),
            r matches Some(k) ==> is_latest_start(self.clips@, pos, k) && pos < self.clips@[k].tl_start
                + self.clips@[k].tl_len && pos < u64::MAX,
            r is None ==> forall|k: u64|
                is_latest_start(self.clips@, pos, k) ==> !(pos < self.clips@[k].tl_start
                    + self.clips@[k].tl_len && pos < u64::MAX),
    {
        match self.latest_start_at_or_before(pos) {
            Some(k) => {
                proof {
                    lemma_latest_start_unique(self.clips@, pos, k);
                    assert forall|j: u64| is_latest_start(self.clips@, pos, j) implies j == k by {
                        lemma_latest_start_unique(self.clips@, pos, j);
                    }
                }
                let c = self.clips.get(&k).unwrap();
                let end = c.tl_start.saturating_add(c.tl_len);
                if pos < end {
                    Some(k)
                } else {
                    None
                }
            },
            None => {
                assert(!exists|k: u64| is_latest_start(self.clips@, pos, k));
                None
            },
        }
    }
}

/// Every clip is stored under its own start and is at least one frame long.
pub open spec fn clips_well_formed(m: Map<u64, Clip>) -> bool {
    forall|k: u64| #[trigger] m.contains_key(k) ==> m[k].tl_start == k && m[k].tl_len > 0
}

/// Every track of `ts` is well formed.
pub open spec fn all_well_formed(ts: Seq<TrackView>) -> bool {
    forall|i: int| 0 <= i < ts.len() ==> clips_well_formed(#[trigger] ts[i].clips)
}

/// The track that a caller's track number names among `n` tracks, if any.
pub open spec fn spec_track_index(number: i32, n: int) -> Option<int> {
    if 0 <= number < n { Some(number as int) } else { None }
}

/// The clip that `add_clip` places.
pub open spec fn new_clip(file_path: String, tl_start: u64, tl_len: u64, src_sr: u32) -> Clip {
    Clip { file_path, src_sr, tl_start, tl_len }
}

/// `ts` with the clips of track `i` replaced by `m`.
pub open spec fn with_clips(ts: Seq<TrackView>, i: int, m: Map<u64, Clip>) -> Seq<TrackView> {
    ts.update(i, TrackView { clips: m, write_pos: ts[i].write_pos })
}

/// The tracks after `clip` was placed on track `i`.
pub open spec fn spec_add(ts: Seq<TrackView>, i: int, clip: Clip) -> Seq<TrackView> {
    with_clips(ts, i, ts[i].clips.insert(clip.tl_start, clip))
}

/// The tracks after the clip starting at `start` was taken off track `i`.
pub open spec fn spec_delete(ts: Seq<TrackView>, i: int, start: u64) -> Seq<TrackView> {
    with_clips(ts, i, ts[i].clips.remove(start))
}

/// The clip `c` moved to start at `new_start`.
pub open spec fn moved_clip(c: Clip, new_start: u64) -> Clip {
    Clip { file_path: c.file_path, src_sr: c.src_sr, tl_start: new_start, tl_len: c.tl_len }
}

/// The tracks after the clip starting at `old_start` on track `o` was taken
/// off and placed on track `n` to start at `new_start`.
pub open spec fn spec_move(ts: Seq<TrackView>, o: int, old_start: u64, n: int, new_start: u64) -> Seq<
    TrackView,
> {
    let c = ts[o].clips[old_start];
    let removed = spec_delete(ts, o, old_start);
    spec_add(removed, n, moved_clip(c, new_start))
}

/// Resolves a caller's track number to an index among `ntracks` tracks.
pub fn track_index(number: i32, ntracks: usize) -> (r: Option<usize>)
    ensures
        r matches Some(i) ==> i == number && 0 <= number && (number as int) < ntracks,
        r is None ==> number < 0 || number >= ntracks,
        match spec_track_index(number, ntracks as int) {
            Some(i) => r == Some(i as usize),
            None => r is None,
        },
{
    if number < 0 {
        return None;
    }
    let idx = number as usize;
    if idx >= ntracks {
        None
    } else {
        Some(idx)
    }
}

/// The views of a list of track timelines.
pub open spec fn views(v: Seq<TrackTimeline>) -> Seq<TrackView> {
    v.map_values(|t: TrackTimeline| t@)
}

/// The timelines of all tracks of the engine, one per track. Every clip of
/// every track is stored under its own start and is at least one frame long:
/// the edits below keep it so, and nothing else can change the tracks.
pub struct Timelines {
    tracks: Vec<TrackTimeline>,
}

impl View for Timelines {
    type V = Seq<TrackView>;

    closed spec fn view(&self) -> Seq<TrackView> {
        views(self.tracks@)
    }
}

impl Timelines {
    #[verifier::type_invariant]
    spec fn clips_stored_under_their_start(self) -> bool {
        all_well_formed(views(self.tracks@))
    }

    /// `ntracks` empty timelines, each filled up to frame 0.
    pub fn new(ntracks: usize) -> (t: Timelines)
        ensures
            t@.len() == ntracks,
            forall|i: int|
                0 <= i < ntracks ==> (#[trigger] t@[i]).clips == Map::<u64, Clip>::empty()
                    && t@[i].write_pos == 0,
            all_well_formed(t@),
    {
        let mut tracks: Vec<TrackTimeline> = Vec::new();
        for i in 0..ntracks
            invariant
                tracks@.len() == i,
                forall|j: int|
                    0 <= j < i ==> (#[trigger] tracks@[j])@.clips == Map::<u64, Clip>::empty()
                        && tracks@[j]@.write_pos == 0,
        {
            tracks.push(TrackTimeline::new());
        }
        assert(all_well_formed(views(tracks@)));
        Timelines { tracks }
    }

    /// The number of tracks.
    pub fn len(&self) -> (n: usize)
        ensures
            n == self@.len(),
    {
        self.tracks.len()
    }

    /// The timeline of track `i`.
    pub fn track(&self, i: usize) -> (t: &TrackTimeline)
        requires
            i < self@.len(),
        ensures
            t@ == self@[i as int],
            clips_well_formed(t@.clips),
    {
        proof {
            use_type_invariant(self);
        }
        &self.tracks[i]
    }

    /// Places a clip of `tl_len` frames from `file_path` at `tl_start` on the
    /// track that `number` names. Refused, and nothing changes, when the
    /// number names no track or the clip is empty. A clip that starts at the
    /// same frame on that track is replaced.
    pub fn add_clip(
        &mut self,
        number: i32,
        file_path: String,
        tl_start: u64,
        tl_len: u64,
        src_sr: u32,
    ) -> (ok: bool)
        ensures
            ok == (spec_track_index(number, old(self)@.len() as int) is Some && tl_len > 0),
            ok == (0 <= number && (number as int) < old(self)@.len() && tl_len > 0),
            ok ==> final(self)@ == spec_add(
                old(self)@,
                number as int,
                new_clip(file_path, tl_start, tl_len, src_sr),
            ),
            !ok ==> final(self)@ == old(self)@,
            all_well_formed(final(self)@),
            final(self)@.len() == old(self)@.len(),
            ok ==> final(self)@[number as int].clips == old(self)@[number as int].clips.insert(
                tl_start,
                Clip { file_path, src_sr, tl_start, tl_len },
            ),
            ok ==> final(self)@[number as int].write_pos == old(self)@[number as int].write_pos,
            forall|j: int|
                0 <= j < old(self)@.len() && j != number ==> #[trigger] final(self)@[j] == old(self)@[j],
    {
        proof {
            use_type_invariant(&*self);
        }
        let idx = match track_index(number, self.tracks.len()) {
            Some(i) => i,
            None => return false,
        };
        if tl_len == 0 {
            return false;
        }
        let clip = Clip { file_path, src_sr, tl_start, tl_len };
        let ghost before = self@;
        let mut tracks: Vec<TrackTimeline> = Vec::new();
        std::mem::swap(&mut tracks, &mut self.tracks);
        assert(views(tracks@) == before);
        tracks[idx].clips.insert(tl_start, clip);
        proof {
            assert(views(tracks@) =~= spec_add(
                before,
                idx as int,
                new_clip(file_path, tl_start, tl_len, src_sr),
            ));
        }
        self.tracks = tracks;
        true
    }

    /// Takes the clip that starts at `start` off the track that `track`
    /// names. Refused when the number names no track; accepted, with nothing
    /// changed, when no clip starts there.
    pub fn delete_clip_by_start(&mut self, track: i32, start: u64) -> (ok: bool)
        ensures
            ok == spec_track_index(track, old(self)@.len() as int) is Some,
            ok == (0 <= track && (track as int) < old(self)@.len()),
            ok ==> final(self)@ == spec_delete(old(self)@, track as int, start),
            !ok ==> final(self)@ == old(self)@,
            all_well_formed(final(self)@),
            final(self)@.len() == old(self)@.len(),
            ok ==> final(self)@[track as int].clips == old(self)@[track as int].clips.remove(start),
            ok ==> final(self)@[track as int].write_pos == old(self)@[track as int].write_pos,
            forall|j: int|
                0 <= j < old(self)@.len() && j != track ==> #[trigger] final(self)@[j] == old(self)@[j],
            ok && !old(self)@[track as int].clips.contains_key(start) ==> final(self)@ == old(self)@,
    {
        proof {
            use_type_invariant(&*self);
        }
        let idx = match track_index(track, self.tracks.len()) {
            Some(i) => i,
            None => return false,
        };
        let ghost before = self@;
        let mut tracks: Vec<TrackTimeline> = Vec::new();
        std::mem::swap(&mut tracks, &mut self.tracks);
        assert(views(tracks@) == before);
        let _ = tracks[idx].clips.remove(&start);
        proof {
            assert(views(tracks@) =~= spec_delete(before, idx as int, start));
            if !before[idx as int].clips.contains_key(start) {
                assert(views(tracks@)[idx as int].clips =~= before[idx as int].clips);
                assert(views(tracks@) =~= before);
            }
        }
        self.tracks = tracks;
        true
    }

    /// Moves the clip that starts at `old_start` on track `old_track` to
    /// start at `new_start` on track `new_track`. Refused, and nothing
    /// changes, when either number names no track or no clip starts at
    /// `old_start` there. A clip that already starts at `new_start` on the
    /// new track is replaced. When that place was free, moving the clip back
    /// is accepted and gives the tracks back as they were.
    pub fn move_clip_by_start(
        &mut self,
        old_track: i32,
        old_start: u64,
        new_track: i32,
        new_start: u64,
    ) -> (ok: bool)
        ensures
            ok == (spec_track_index(old_track, old(self)@.len() as int) is Some
                && spec_track_index(new_track, old(self)@.len() as int) is Some
                && old(self)@[old_track as int].clips.contains_key(old_start)),
            ok == (0 <= old_track && (old_track as int) < old(self)@.len() && 0 <= new_track
                && (new_track as int) < old(self)@.len() && old(self)@[old_track as int].clips.contains_key(
                old_start,
            )),
            ok ==> final(self)@ == spec_move(
                old(self)@,
                old_track as int,
                old_start,
                new_track as int,
                new_start,
            ),
            !ok ==> final(self)@ == old(self)@,
            all_well_formed(final(self)@),
            final(self)@.len() == old(self)@.len(),
            ok ==> final(self)@[new_track as int].clips == (if old_track == new_track {
                old(self)@[old_track as int].clips.remove(old_start)
            } else {
                old(self)@[new_track as int].clips
            }).insert(
                new_start,
                Clip {
                    file_path: old(self)@[old_track as int].clips[old_start].file_path,
                    src_sr: old(self)@[old_track as int].clips[old_start].src_sr,
                    tl_start: new_start,
                    tl_len: old(self)@[old_track as int].clips[old_start].tl_len,
                },
            ),
            ok && old_track != new_track ==> final(self)@[old_track as int].clips == old(self)@[old_track as int].clips.remove(old_start),
            forall|j: int|
                0 <= j < old(self)@.len() ==> (#[trigger] final(self)@[j]).write_pos == old(self)@[j].write_pos,
            forall|j: int|
                0 <= j < old(self)@.len() && j != old_track && j != new_track ==> #[trigger] final(self)@[j] == old(self)@[j],
            ok && (!old(self)@[new_track as int].clips.contains_key(new_start) || (old_track
                == new_track && old_start == new_start)) ==> {
                &&& final(self)@[new_track as int].clips.contains_key(new_start)
                &&& spec_move(final(self)@, new_track as int, new_start, old_track as int, old_start)
                    == old(self)@
            },
    {
        proof {
            use_type_invariant(&*self);
        }
        let o = match track_index(old_track, self.tracks.len()) {
            Some(i) => i,
            None => return false,
        };
        let n = match track_index(new_track, self.tracks.len()) {
            Some(i) => i,
            None => return false,
        };
        let ghost before = self@;
        let mut tracks: Vec<TrackTimeline> = Vec::new();
        std::mem::swap(&mut tracks, &mut self.tracks);
        assert(views(tracks@) == before);
        let taken = tracks[o].clips.remove(&old_start);
        match taken {
            Some(clip) => {
                let ghost removed = views(tracks@);
                assert(removed =~= spec_delete(before, o as int, old_start));
                let moved = Clip {
                    file_path: clip.file_path,
                    src_sr: clip.src_sr,
                    tl_start: new_start,
                    tl_len: clip.tl_len,
                };
                tracks[n].clips.insert(new_start, moved);
                proof {
                    assert(views(tracks@) =~= spec_add(
                        removed,
                        n as int,
                        moved_clip(before[o as int].clips[old_start], new_start),
                    ));
                    if !before[n as int].clips.contains_key(new_start) || (old_track == new_track
                        && old_start == new_start) {
                        lemma_move_then_move_back_restores(before, o as int, old_start, n as int, new_start);
                    }
                }
                self.tracks = tracks;
                true
            },
            None => {
                proof {
                    assert(views(tracks@)[o as int].clips =~= before[o as int].clips);
                    assert(views(tracks@) =~= before);
                }
                self.tracks = tracks;
                false
            },
        }
    }

    /// Sets the fill position of every track to `pos`, the transport's
    /// playhead.
    pub fn align_write_pos(&mut self, pos: u64)
        ensures
            final(self)@.len() == old(self)@.len(),
            forall|i: int|
                0 <= i < old(self)@.len() ==> (#[trigger] final(self)@[i]).write_pos == pos
                    && final(self)@[i].clips == old(self)@[i].clips,
    {
        let n = self.tracks.len();
        for i in 0..n
            invariant
                n == old(self)@.len(),
                self@.len() == n,
                forall|j: int|
                    0 <= j < n ==> (#[trigger] self@[j]).clips == old(self)@[j].clips,
                forall|j: int| 0 <= j < i ==> (#[trigger] self@[j]).write_pos == pos,
        {
            self.set_write_pos(i, pos);
        }
    }

    /// Records that track `i` has been filled up to frame `pos`.
    pub fn set_write_pos(&mut self, i: usize, pos: u64)
        requires
            i < old(self)@.len(),
        ensures
            final(self)@ == old(self)@.update(
                i as int,
                TrackView { clips: old(self)@[i as int].clips, write_pos: pos },
            ),
    {
        proof {
            use_type_invariant(&*self);
        }
        let ghost before = self@;
        let mut tracks: Vec<TrackTimeline> = Vec::new();
        std::mem::swap(&mut tracks, &mut self.tracks);
        assert(views(tracks@) == before);
        tracks[i].write_pos_frames = pos;
        assert(views(tracks@) =~= before.update(
            i as int,
            TrackView { clips: before[i as int].clips, write_pos: pos },
        ));
        self.tracks = tracks;
    }

    /// Records the end of a fill of track `i` that started at `from` and
    /// reached `to`, unless the track's fill position moved meanwhile (a seek
    /// lined it up with a new playhead); tells whether it was recorded.
    pub fn finish_fill(&mut self, i: usize, from: u64, to: u64) -> (recorded: bool)
        requires
            i < old(self)@.len(),
        ensures
            recorded == (old(self)@[i as int].write_pos == from),
            recorded ==> final(self)@ == old(self)@.update(
                i as int,
                TrackView { clips: old(self)@[i as int].clips, write_pos: to },
            ),
            !recorded ==> final(self)@ == old(self)@,
    {
        if self.tracks[i].write_pos_frames == from {
            self.set_write_pos(i, to);
            true
        } else {
            false
        }
    }
}

/// Deleting by start takes off exactly the clip that starts there, if any,
/// and nothing else: a clip that merely plays at that frame stays, and so do
/// the other tracks and every fill position.
pub proof fn lemma_delete_takes_only_that_start(ts: Seq<TrackView>, i: int, start: u64)
    requires
        0 <= i < ts.len(),
    ensures
        spec_delete(ts, i, start).len() == ts.len(),
        spec_delete(ts, i, start)[i].clips == ts[i].clips.remove(start),
        !spec_delete(ts, i, start)[i].clips.contains_key(start),
        forall|k: u64| k != start ==> (#[trigger] spec_delete(ts, i, start)[i].clips.contains_key(k)
            <==> ts[i].clips.contains_key(k)),
        !ts[i].clips.contains_key(start) ==> spec_delete(ts, i, start) == ts,
        forall|j: int|
            0 <= j < ts.len() ==> (#[trigger] spec_delete(ts, i, start)[j]).write_pos == ts[j].write_pos,
        forall|j: int| 0 <= j < ts.len() && j != i ==> #[trigger] spec_delete(ts, i, start)[j] == ts[j],
{
    if !ts[i].clips.contains_key(start) {
        assert(spec_delete(ts, i, start)[i].clips =~= ts[i].clips);
        assert(spec_delete(ts, i, start) =~= ts);
    }
}

/// Placing a clip puts it under its own start on that track, replaces only
/// a clip that started at the same frame, and changes nothing else.
pub proof fn lemma_add_places_only_that_clip(ts: Seq<TrackView>, i: int, clip: Clip)
    requires
        0 <= i < ts.len(),
    ensures
        spec_add(ts, i, clip).len() == ts.len(),
        spec_add(ts, i, clip)[i].clips.contains_key(clip.tl_start),
        spec_add(ts, i, clip)[i].clips[clip.tl_start] == clip,
        forall|k: u64| k != clip.tl_start ==> (#[trigger] spec_add(ts, i, clip)[i].clips.contains_key(k)
            <==> ts[i].clips.contains_key(k)) && (ts[i].clips.contains_key(k) ==> spec_add(ts, i, clip)[i].clips[k] == ts[i].clips[k]),
        forall|j: int|
            0 <= j < ts.len() ==> (#[trigger] spec_add(ts, i, clip)[j]).write_pos == ts[j].write_pos,
        forall|j: int| 0 <= j < ts.len() && j != i ==> #[trigger] spec_add(ts, i, clip)[j] == ts[j],
{
}

/// Placing a clip where no clip started and then deleting the clip at that
/// start gives the tracks back unchanged.
pub proof fn lemma_add_then_delete_restores(ts: Seq<TrackView>, i: int, clip: Clip)
    requires
        0 <= i < ts.len(),
        !ts[i].clips.contains_key(clip.tl_start),
    ensures
        spec_delete(spec_add(ts, i, clip), i, clip.tl_start) == ts,
{
    let t2 = spec_delete(spec_add(ts, i, clip), i, clip.tl_start);
    assert(t2[i].clips =~= ts[i].clips);
    assert(t2 =~= ts);
}

/// On well-formed tracks, moving a clip to a free start and moving it back
/// gives the tracks back unchanged; the move back is accepted, since the
/// clip is found at its new start.
pub proof fn lemma_move_then_move_back_restores(
    ts: Seq<TrackView>,
    o: int,
    old_start: u64,
    n: int,
    new_start: u64,
)
    requires
        all_well_formed(ts),
        0 <= o < ts.len(),
        0 <= n < ts.len(),
        ts[o].clips.contains_key(old_start),
        !ts[n].clips.contains_key(new_start) || (o == n && old_start == new_start),
    ensures
        spec_move(ts, o, old_start, n, new_start)[n].clips.contains_key(new_start),
        spec_move(spec_move(ts, o, old_start, n, new_start), n, new_start, o, old_start) == ts,
{
    let c = ts[o].clips[old_start];
    assert(clips_well_formed(ts[o].clips));
    assert(c.tl_start == old_start);
    let t1 = spec_move(ts, o, old_start, n, new_start);
    let t2 = spec_move(t1, n, new_start, o, old_start);
    assert(t1[n].clips[new_start] == moved_clip(c, new_start));
    assert(moved_clip(moved_clip(c, new_start), old_start) == c);
    assert forall|i: int| 0 <= i < ts.len() implies #[trigger] t2[i] == ts[i] by {
        assert(t2[i].clips =~= ts[i].clips);
    }
    assert(t2 =~= ts);
}

} // verus!
