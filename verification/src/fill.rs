use vstd::prelude::*;
use crate::unit::min_int;
use crate::timeline::{
    lemma_earliest_start_unique, lemma_latest_start_unique,
    Clip, TrackTimeline, active_clip, clip_end, earliest_start_after, is_earliest_start_after,
    is_latest_start,
};

verus! {

/// Where a fill of a track's ring stands between two pieces of outside work.
#[derive(Clone, Copy, Debug, PartialEq, Eq)]
pub enum FillStage {
    /// Silence was asked for a stretch with no clip.
    Gap { asked: usize },
    /// A decoder for the clip that plays at the fill position was asked for.
    Opening { tl_start: u64, can_write: usize },
    /// The decoder was asked to move to the clip's source position.
    Seeking { can_write: usize },
    /// Decoded, resampled frames of the clip were asked for.
    Decoding { can_write: usize },
    /// After a failure on a clip, silence was asked for in its place. When
    /// the ring takes none of it, or is full afterwards, the fill ends, so a
    /// clip whose decoder keeps failing cannot hold the fill in a loop.
    Recovering { asked: usize },
    /// The fill is over.
    Done,
}

/// What the fill asks its driver to do next.
#[derive(Clone, Copy, Debug, PartialEq, Eq)]
pub enum FillAction {
    /// Stop: the track is now filled up to `write_pos`, and `produced`
    /// frames were written in all.
    Finish { write_pos: u64, produced: usize },
    /// Push up to `frames` frames of silence into the ring.
    WriteSilence { frames: usize },
    /// Make sure a decoder is open on the clip that starts at `clip_start`,
    /// reopening it when the file or the rate differ.
    OpenDecoder { clip_start: u64 },
    /// Move the decoder to source sample `src_sample`.
    SeekDecoder { src_sample: u64 },
    /// Decode, resample and push up to `frames` frames.
    Decode { frames: usize },
    /// Drop the decoder, then push up to `frames` frames of silence.
    DropDecoderAndWriteSilence { frames: usize },
}

/// What the driver reports after doing an action.
#[derive(Clone, Copy, Debug, PartialEq, Eq)]
pub enum FillEvent {
    /// `frames` frames went into the ring; `ring_full` tells whether the ring
    /// was full afterwards. A failed decode reports zero frames.
    Wrote { frames: usize, ring_full: bool },
    /// A decoder is open; it reads a source at `src_sr` and stands at source
    /// sample `src_pos`.
    DecoderReady { src_sr: u32, src_pos: u64 },
    /// No decoder could be opened on the clip.
    DecoderFailed,
    /// The decoder moved (`ok`) or failed to move.
    Sought { ok: bool },
}

/// One fill of a track's ring from its timeline, in frames: it starts at the
/// track's fill position and writes at most `requested` frames.
#[derive(Clone, Copy, Debug, PartialEq, Eq)]
pub struct FillSession {
    pub start_pos: u64,
    pub requested: usize,
    pub pos: u64,
    pub frames_need: usize,
    pub produced: usize,
    pub engine_sr: u32,
    pub stage: FillStage,
}

/// The source sample that timeline offset `offset` (frames after the clip's
/// start, at the engine rate `engine_sr`) maps to in a source read at
/// `src_sr`: the floor of `offset * src_sr / engine_sr`, held at `u64::MAX`;
/// with a zero engine rate it is 0 for a zero numerator and `u64::MAX`
/// otherwise. A floating-point evaluation of the same quotient gives the same
/// value as long as `offset * src_sr` stays below 2^53.
pub open spec fn source_position(offset: u64, src_sr: u32, engine_sr: u32) -> u64 {
    let num = offset * src_sr;
    if engine_sr == 0 {
        if num == 0 { 0 } else { u64::MAX }
    } else if num / (engine_sr as int) > u64::MAX {
        u64::MAX
    } else {
        (num / (engine_sr as int)) as u64
    }
}

/// `a - b`, or zero when `b` exceeds `a`.
pub open spec fn sat_sub_u64(a: u64, b: u64) -> u64 {
    if b <= a { (a - b) as u64 } else { 0 }
}

impl FillSession {
    /// The bookkeeping that holds at every stage: what was written plus what
    /// is still needed is what was asked, the position moved by what was
    /// written, and, while the fill runs, the position cannot overflow.
    pub open spec fn inv(self) -> bool {
        &&& self.produced + self.frames_need == self.requested
        &&& self.pos == self.start_pos + self.produced
        &&& (self.stage is Done || self.start_pos + self.requested <= u64::MAX)
        &&& match self.stage {
            FillStage::Gap { asked } => 0 < asked <= self.frames_need,
            FillStage::Opening { tl_start, can_write } => 0 < can_write <= self.frames_need,
            FillStage::Seeking { can_write } => 0 < can_write <= self.frames_need,
            FillStage::Decoding { can_write } => 0 < can_write <= self.frames_need,
            FillStage::Recovering { asked } => 0 < asked <= self.frames_need,
            FillStage::Done => true,
        }
    }

    /// The same session at another stage.
    pub open spec fn at(self, stage: FillStage) -> FillSession {
        FillSession { stage, ..self }
    }

    /// The session after `w` more frames were written.
    pub open spec fn advanced(self, w: usize) -> FillSession {
        FillSession {
            pos: (self.pos + w) as u64,
            frames_need: (self.frames_need - w) as usize,
            produced: (self.produced + w) as usize,
            ..self
        }
    }
}

/// The session over, and what it reports.
pub open spec fn spec_finish(s: FillSession) -> (FillSession, FillAction) {
    (s.at(FillStage::Done), FillAction::Finish { write_pos: s.pos, produced: s.produced })
}

/// The next action at the top of the fill loop: stop when nothing is needed;
/// in a stretch with no clip, silence up to the next clip's start or for all
/// that is needed; on a clip, open its decoder for what is left of the clip
/// or of the need.
pub open spec fn spec_choose(s: FillSession, m: Map<u64, Clip>) -> (FillSession, FillAction) {
    if s.frames_need == 0 {
        spec_finish(s)
    } else {
        match active_clip(m, s.pos) {
            None => {
                let gap = match earliest_start_after(m, s.pos) {
                    Some(ns) => min_int(ns - s.pos, s.frames_need as int) as usize,
                    None => s.frames_need,
                };
                (s.at(FillStage::Gap { asked: gap }), FillAction::WriteSilence { frames: gap })
            },
            Some(k) => {
                let c = m[k];
                let can = min_int(clip_end(c) - s.pos, s.frames_need as int) as usize;
                (
                    s.at(FillStage::Opening { tl_start: c.tl_start, can_write: can }),
                    FillAction::OpenDecoder { clip_start: k },
                )
            },
        }
    }
}

/// The event fits the action asked: no more frames are reported written than
/// were asked for.
pub open spec fn event_fits(s: FillSession, ev: FillEvent) -> bool {
    match ev {
        FillEvent::Wrote { frames, ring_full } => match s.stage {
            FillStage::Gap { asked } => frames <= asked,
            FillStage::Decoding { can_write } => frames <= can_write,
            FillStage::Recovering { asked } => frames <= asked,
            _ => true,
        },
        _ => true,
    }
}

/// One step of the fill: the session after the event, and the next action.
/// An event that does not answer the pending action ends the fill.
pub open spec fn spec_step(s: FillSession, m: Map<u64, Clip>, ev: FillEvent) -> (
    FillSession,
    FillAction,
) {
    match s.stage {
        FillStage::Gap { asked } => match ev {
            FillEvent::Wrote { frames, ring_full } => if frames == 0 {
                spec_finish(s)
            } else if ring_full {
                spec_finish(s.advanced(frames))
            } else {
                spec_choose(s.advanced(frames), m)
            },
            _ => spec_finish(s),
        },
        FillStage::Opening { tl_start, can_write } => match ev {
            FillEvent::DecoderFailed => (
                s.at(FillStage::Recovering { asked: can_write }),
                FillAction::WriteSilence { frames: can_write },
            ),
            FillEvent::DecoderReady { src_sr, src_pos } => {
                let target = source_position(sat_sub_u64(s.pos, tl_start), src_sr, s.engine_sr);
                if src_pos != target {
                    (
                        s.at(FillStage::Seeking { can_write }),
                        FillAction::SeekDecoder { src_sample: target },
                    )
                } else {
                    (s.at(FillStage::Decoding { can_write }), FillAction::Decode { frames: can_write })
                }
            },
            _ => spec_finish(s),
        },
        FillStage::Seeking { can_write } => match ev {
            FillEvent::Sought { ok } => if ok {
                (s.at(FillStage::Decoding { can_write }), FillAction::Decode { frames: can_write })
            } else {
                (
                    s.at(FillStage::Recovering { asked: can_write }),
                    FillAction::DropDecoderAndWriteSilence { frames: can_write },
                )
            },
            _ => spec_finish(s),
        },
        FillStage::Decoding { can_write } => match ev {
            FillEvent::Wrote { frames, ring_full } => if frames == 0 {
                (
                    s.at(FillStage::Recovering { asked: can_write }),
                    FillAction::DropDecoderAndWriteSilence { frames: can_write },
                )
            } else if ring_full {
                spec_finish(s.advanced(frames))
            } else {
                spec_choose(s.advanced(frames), m)
            },
            _ => spec_finish(s),
        },
        FillStage::Recovering { asked } => match ev {
            FillEvent::Wrote { frames, ring_full } => if frames == 0 {
                spec_finish(s)
            } else if ring_full {
                spec_finish(s.advanced(frames))
            } else {
                spec_choose(s.advanced(frames), m)
            },
            _ => spec_finish(s),
        },
        FillStage::Done => spec_finish(s),
    }
}

/// The first action of a fill of `frames_need` frames from `write_pos`:
/// nothing is done when nothing is needed or the ring is already full.
pub open spec fn spec_start(
    write_pos: u64,
    frames_need: usize,
    ring_full: bool,
    engine_sr: u32,
    m: Map<u64, Clip>,
) -> (FillSession, FillAction) {
    let s = FillSession {
        start_pos: write_pos,
        requested: frames_need,
        pos: write_pos,
        frames_need,
        produced: 0,
        engine_sr,
        stage: FillStage::Done,
    };
    if frames_need == 0 || ring_full {
        spec_finish(s)
    } else {
        spec_choose(s, m)
    }
}

/// `t` is the source sample for a numerator `num` (timeline offset times
/// source rate) at engine rate `e`: the greatest sample whose time at the
/// engine rate is not after the offset, held at `u64::MAX`; with a zero
/// engine rate, 0 for a zero numerator and `u64::MAX` otherwise.
pub open spec fn is_source_sample(num: int, e: u32, t: u64) -> bool {
    if e == 0 {
        t == (if num == 0 { 0 } else { u64::MAX })
    } else {
        &&& t * e <= num
        &&& (t == u64::MAX || num < (t + 1) * e)
    }
}

/// Only one sample is the source sample of a numerator.
pub proof fn lemma_source_sample_unique(num: int, e: u32, t1: u64, t2: u64)
    requires
        is_source_sample(num, e, t1),
        is_source_sample(num, e, t2),
    ensures
        t1 == t2,
{
    if e > 0 && t1 != t2 {
        if t1 < t2 {
            assert((t1 + 1) * e <= t2 * e) by (nonlinear_arith)
                requires
                    t1 + 1 <= t2,
                    e > 0,
            ;
        } else {
            assert((t2 + 1) * e <= t1 * e) by (nonlinear_arith)
                requires
                    t2 + 1 <= t1,
                    e > 0,
            ;
        }
    }
}

/// `source_position` is the source sample of its offset.
pub proof fn lemma_source_position_is_source_sample(offset: u64, src_sr: u32, e: u32)
    ensures
        is_source_sample(offset * src_sr, e, source_position(offset, src_sr, e)),
{
    let num = offset * src_sr;
    assert(offset * src_sr >= 0) by (nonlinear_arith)
        requires
            offset >= 0,
            src_sr >= 0,
    ;
    if e > 0 {
        let q = num / (e as int);
        vstd::arithmetic::div_mod::lemma_fundamental_div_mod(num, e as int);
        vstd::arithmetic::div_mod::lemma_mod_bound(num, e as int);
        assert(q >= 0) by {
            vstd::arithmetic::div_mod::lemma_div_pos_is_pos(num, e as int);
        }
        if q > u64::MAX {
            assert((u64::MAX as int) * e <= q * e) by (nonlinear_arith)
                requires
                    q > u64::MAX,
                    e > 0,
            ;
            assert(q * e == e * q) by (nonlinear_arith);
        } else {
            assert(q * e == e * q) by (nonlinear_arith);
            assert((q + 1) * e == q * e + e) by (nonlinear_arith);
        }
    }
}

/// Maps a timeline offset to the decoder's source sample; see
/// `source_position`.
pub fn source_sample(offset: u64, src_sr: u32, engine_sr: u32) -> (r: u64)
    ensures
        r == source_position(offset, src_sr, engine_sr),
        is_source_sample(offset * src_sr, engine_sr, r),
{
    proof {
        lemma_source_position_is_source_sample(offset, src_sr, engine_sr);
    }
    assert((offset as int) * (src_sr as int) <= (u64::MAX as int) * (u32::MAX as int)) by (nonlinear_arith)
        requires
            offset <= u64::MAX,
            src_sr <= u32::MAX,
    ;
    let num: u128 = (offset as u128) * (src_sr as u128);
    if engine_sr == 0 {
        if num == 0 {
            0
        } else {
            u64::MAX
        }
    } else {
        let q: u128 = num / (engine_sr as u128);
        if q > u64::MAX as u128 {
            u64::MAX
        } else {
            q as u64
        }
    }
}

/// Whether an open decoder on `decoder_path`, reading at `decoder_sr`, can
/// serve `clip`: it must read the clip's file at the clip's rate; otherwise a
/// new decoder is opened for the clip.
pub fn decoder_fits(decoder_path: &String, decoder_sr: u32, clip: &Clip) -> (fits: bool)
    ensures
        fits == (decoder_path@ == clip.file_path@ && decoder_sr == clip.src_sr),
{
    *decoder_path == clip.file_path && decoder_sr == clip.src_sr
}

impl FillSession {
    /// Starts a fill of `frames_need` frames of `timeline` from its fill
    /// position, the ring being full or not, at the engine rate `engine_sr`.
    pub fn start(timeline: &TrackTimeline, frames_need: usize, ring_full: bool, engine_sr: u32) -> (r: (
        FillSession,
        FillAction,
    ))
        requires
            frames_need == 0 || ring_full || timeline.write_pos_frames + frames_need <= u64::MAX,
        ensures
            r == spec_start(timeline.write_pos_frames, frames_need, ring_full, engine_sr, timeline.clips@),
            r.0.inv(),
    {
        let mut s = FillSession {
            start_pos: timeline.write_pos_frames,
            requested: frames_need,
            pos: timeline.write_pos_frames,
            frames_need,
            produced: 0,
            engine_sr,
            stage: FillStage::Done,
        };
        if frames_need == 0 || ring_full {
            let a = s.finish();
            (s, a)
        } else {
            let a = s.next_segment(timeline);
            (s, a)
        }
    }

    fn finish(&mut self) -> (a: FillAction)
        ensures
            (*final(self), a) == spec_finish(*old(self)),
    {
        self.stage = FillStage::Done;
        FillAction::Finish { write_pos: self.pos, produced: self.produced }
    }

    fn advance(&mut self, w: usize)
        requires
            old(self).inv(),
            !(old(self).stage is Done),
            w <= old(self).frames_need,
        ensures
            *final(self) == old(self).advanced(w),
    {
        self.pos = self.pos + w as u64;
        self.frames_need = self.frames_need - w;
        self.produced = self.produced + w;
    }

    fn next_segment(&mut self, timeline: &TrackTimeline) -> (a: FillAction)
        requires
            old(self).produced + old(self).frames_need == old(self).requested,
            old(self).pos == old(self).start_pos + old(self).produced,
            old(self).start_pos + old(self).requested <= u64::MAX,
        ensures
            (*final(self), a) == spec_choose(*old(self), timeline.clips@),
            final(self).inv(),
    {
        if self.frames_need == 0 {
            return self.finish();
        }
        match timeline.active_clip_at(self.pos) {
            None => {
                let gap = match timeline.earliest_start_after(self.pos) {
                    Some(ns) => {
                        let d = ns - self.pos;
                        if d <= self.frames_need as u64 {
                            d as usize
                        } else {
                            self.frames_need
                        }
                    },
                    None => self.frames_need,
                };
                self.stage = FillStage::Gap { asked: gap };
                FillAction::WriteSilence { frames: gap }
            },
            Some(k) => {
                let c = timeline.clips.get(&k).unwrap();
                let end = c.tl_start.saturating_add(c.tl_len);
                let d = end - self.pos;
                let can = if d <= self.frames_need as u64 {
                    d as usize
                } else {
                    self.frames_need
                };
                self.stage = FillStage::Opening { tl_start: c.tl_start, can_write: can };
                FillAction::OpenDecoder { clip_start: k }
            },
        }
    }

    /// Takes the driver's report of the last action and tells the next one.
    pub fn step(&mut self, timeline: &TrackTimeline, ev: FillEvent) -> (a: FillAction)
        requires
            old(self).inv(),
            event_fits(*old(self), ev),
        ensures
            (*final(self), a) == spec_step(*old(self), timeline.clips@, ev),
            final(self).inv(),
    {
        match self.stage {
            FillStage::Gap { asked } => match ev {
                FillEvent::Wrote { frames, ring_full } => {
                    if frames == 0 {
                        self.finish()
                    } else if ring_full {
                        self.advance(frames);
                        self.finish()
                    } else {
                        self.advance(frames);
                        self.next_segment(timeline)
                    }
                },
                _ => self.finish(),
            },
            FillStage::Opening { tl_start, can_write } => match ev {
                FillEvent::DecoderFailed => {
                    self.stage = FillStage::Recovering { asked: can_write };
                    FillAction::WriteSilence { frames: can_write }
                },
                FillEvent::DecoderReady { src_sr, src_pos } => {
                    let target = source_sample(self.pos.saturating_sub(tl_start), src_sr, self.engine_sr);
                    if src_pos != target {
                        self.stage = FillStage::Seeking { can_write };
                        FillAction::SeekDecoder { src_sample: target }
                    } else {
                        self.stage = FillStage::Decoding { can_write };
                        FillAction::Decode { frames: can_write }
                    }
                },
                _ => self.finish(),
            },
            FillStage::Seeking { can_write } => match ev {
                FillEvent::Sought { ok } => {
                    if ok {
                        self.stage = FillStage::Decoding { can_write };
                        FillAction::Decode { frames: can_write }
                    } else {
                        self.stage = FillStage::Recovering { asked: can_write };
                        FillAction::DropDecoderAndWriteSilence { frames: can_write }
                    }
                },
                _ => self.finish(),
            },
            FillStage::Decoding { can_write } => match ev {
                FillEvent::Wrote { frames, ring_full } => {
                    if frames == 0 {
                        self.stage = FillStage::Recovering { asked: can_write };
                        FillAction::DropDecoderAndWriteSilence { frames: can_write }
                    } else if ring_full {
                        self.advance(frames);
                        self.finish()
                    } else {
                        self.advance(frames);
                        self.next_segment(timeline)
                    }
                },
                _ => self.finish(),
            },
            FillStage::Recovering { asked } => match ev {
                FillEvent::Wrote { frames, ring_full } => {
                    if frames == 0 {
                        self.finish()
                    } else if ring_full {
                        self.advance(frames);
                        self.finish()
                    } else {
                        self.advance(frames);
                        self.next_segment(timeline)
                    }
                },
                _ => self.finish(),
            },
            FillStage::Done => self.finish(),
        }
    }
}

/// A fill keeps its books at every step: written plus still needed is what
/// was asked, the fill position moved by exactly what was written, and when
/// the fill stops it reports that position and never more than was asked.
pub proof fn lemma_fill_accounting(s: FillSession, m: Map<u64, Clip>, ev: FillEvent)
    requires
        s.inv(),
        event_fits(s, ev),
    ensures
        spec_step(s, m, ev).0.inv(),
        spec_step(s, m, ev).0.start_pos == s.start_pos,
        spec_step(s, m, ev).0.requested == s.requested,
        spec_step(s, m, ev).0.produced >= s.produced,
        spec_step(s, m, ev).1 matches FillAction::Finish { write_pos, produced } ==> write_pos
            == s.start_pos + produced && produced <= s.requested,
{
}

/// Silence for a stretch with no clip is asked only where no clip plays, is
/// never empty, and stops at the start of the next clip.
pub proof fn lemma_gap_silence_stops_at_next_clip(s: FillSession, m: Map<u64, Clip>)
    requires
        s.inv(),
    ensures
        spec_choose(s, m).1 matches FillAction::WriteSilence { frames } ==> {
            &&& active_clip(m, s.pos) is None
            &&& 0 < frames <= s.frames_need
            &&& earliest_start_after(m, s.pos) matches Some(ns) ==> s.pos + frames <= ns
        },
{
    if s.frames_need > 0 && active_clip(m, s.pos) is None {
        if let Some(ns) = earliest_start_after(m, s.pos) {
            assert(is_earliest_start_after(m, s.pos, ns));
        }
    }
}

/// Work on a clip is asked only for the clip that plays at the fill position,
/// and never reaches past the clip's end or past what is still needed.
pub proof fn lemma_clip_work_stays_in_clip(s: FillSession, m: Map<u64, Clip>)
    requires
        s.inv(),
    ensures
        spec_choose(s, m).1 matches FillAction::OpenDecoder { clip_start } ==> {
            &&& active_clip(m, s.pos) == Some(clip_start)
            &&& m.contains_key(clip_start)
            &&& spec_choose(s, m).0.stage matches FillStage::Opening { tl_start, can_write }
                && tl_start == m[clip_start].tl_start
                && s.pos + can_write <= clip_end(m[clip_start])
                && can_write <= s.frames_need
        },
{
    if s.frames_need > 0 {
        if let Some(k) = active_clip(m, s.pos) {
            assert(is_latest_start(m, s.pos, k));
        }
    }
}

/// The frame at which the clip `c` stops, written out: its start plus its
/// length, held at `u64::MAX`.
pub open spec fn end_of(c: Clip) -> int {
    if c.tl_start + c.tl_len <= u64::MAX { c.tl_start + c.tl_len } else { u64::MAX as int }
}

/// At the top of the fill loop: with nothing needed the fill ends with what
/// it wrote. Otherwise, when the clip that started last at or before the
/// fill position still plays there, its decoder is asked for, to cover the
/// rest of that clip or the rest of the need, whichever is shorter; when it
/// has ended (or no clip started yet), silence is asked up to the next clip's
/// start or for the rest of the need, whichever is shorter.
pub proof fn lemma_next_segment(s: FillSession, m: Map<u64, Clip>)
    requires
        s.inv(),
    ensures
        ({
            let (n, a) = spec_choose(s, m);
            &&& s.frames_need == 0 ==> a == (FillAction::Finish { write_pos: s.pos, produced: s.produced })
            &&& s.frames_need > 0 ==> (a is WriteSilence || a is OpenDecoder)
            &&& n.produced == s.produced && n.pos == s.pos && n.frames_need == s.frames_need
            &&& a matches FillAction::WriteSilence { frames } ==> {
                &&& 0 < frames <= s.frames_need
                &&& forall|k: u64| is_latest_start(m, s.pos, k) ==> s.pos >= end_of(m[k])
                &&& forall|ns: u64|
                    is_earliest_start_after(m, s.pos, ns) ==> if ns - s.pos <= s.frames_need {
                        s.pos + frames == ns
                    } else {
                        frames == s.frames_need
                    }
                &&& (forall|j: u64| m.contains_key(j) ==> j <= s.pos) ==> frames == s.frames_need
            }
            &&& a matches FillAction::OpenDecoder { clip_start } ==> {
                &&& is_latest_start(m, s.pos, clip_start)
                &&& s.pos < end_of(m[clip_start])
                &&& n.stage matches FillStage::Opening { tl_start, can_write } && tl_start
                    == m[clip_start].tl_start && if end_of(m[clip_start]) - s.pos <= s.frames_need {
                    s.pos + can_write == end_of(m[clip_start])
                } else {
                    can_write == s.frames_need
                }
            }
        }),
{
    if s.frames_need > 0 {
        match active_clip(m, s.pos) {
            Some(k) => {
                assert(is_latest_start(m, s.pos, k));
            },
            None => {
                if exists|k: u64| is_latest_start(m, s.pos, k) {
                    let k = choose|k: u64| is_latest_start(m, s.pos, k);
                    assert forall|j: u64| is_latest_start(m, s.pos, j) implies s.pos >= end_of(m[j]) by {
                        lemma_latest_start_unique(m, s.pos, j);
                    }
                }
                match earliest_start_after(m, s.pos) {
                    Some(ns) => {
                        assert(is_earliest_start_after(m, s.pos, ns));
                        assert forall|j: u64| is_earliest_start_after(m, s.pos, j) implies j == ns by {
                            lemma_earliest_start_unique(m, s.pos, j);
                        }
                    },
                    None => {
                        assert forall|j: u64| is_earliest_start_after(m, s.pos, j) implies false by {
                            lemma_earliest_start_unique(m, s.pos, j);
                        }
                    },
                }
            },
        }
    }
}

/// The frames that the action pending at stage `stage` asks to write, if it
/// writes any.
pub open spec fn frames_asked(stage: FillStage) -> Option<usize> {
    match stage {
        FillStage::Gap { asked } => Some(asked),
        FillStage::Decoding { can_write } => Some(can_write),
        FillStage::Recovering { asked } => Some(asked),
        _ => None,
    }
}

/// A write that the ring takes in full, with room to spare, moves the fill
/// forward: it always asks for at least one frame, and afterwards less is
/// needed than before, or the fill is over. So a fill whose ring takes
/// everything it is asked comes to an end.
pub proof fn lemma_full_write_makes_progress(s: FillSession, m: Map<u64, Clip>)
    requires
        s.inv(),
        frames_asked(s.stage) is Some,
    ensures
        ({
            let f = frames_asked(s.stage)->0;
            let next = spec_step(s, m, FillEvent::Wrote { frames: f, ring_full: false });
            &&& f > 0
            &&& next.0.frames_need < s.frames_need || next.1 is Finish
        }),
{
}

/// How far a fill is from its end: five units per frame still needed, plus
/// the rank of the pending action (opening a decoder ranks above seeking it,
/// seeking above decoding, decoding above writing silence).
pub open spec fn fill_measure(s: FillSession) -> nat {
    let rank: nat = match s.stage {
        FillStage::Opening { .. } => 4,
        FillStage::Seeking { .. } => 3,
        FillStage::Decoding { .. } => 2,
        FillStage::Gap { .. } => 1,
        FillStage::Recovering { .. } => 1,
        FillStage::Done => 0,
    };
    (s.frames_need * 5 + rank) as nat
}

/// Every step of a fill either ends it or brings it strictly closer to its
/// end, whatever the driver reports: a step that needs no fewer frames moves
/// to a lower-ranked action, and a write that the ring refuses ends the fill.
/// So no timeline, decoder or ring state keeps a fill going forever.
pub proof fn lemma_fill_always_ends(s: FillSession, m: Map<u64, Clip>, ev: FillEvent)
    requires
        s.inv(),
        event_fits(s, ev),
    ensures
        spec_step(s, m, ev).1 is Finish || fill_measure(spec_step(s, m, ev).0) < fill_measure(s),
{
}

/// Every frame written is counted: when the ring takes `f` frames of what a
/// pending write asked, the fill has written `f` more, stands `f` frames
/// further and needs `f` fewer, and a fill that ends there reports exactly
/// that; a full ring ends it there.
pub proof fn lemma_written_frames_are_counted(
    s: FillSession,
    m: Map<u64, Clip>,
    f: usize,
    ring_full: bool,
)
    requires
        s.inv(),
        frames_asked(s.stage) is Some,
        0 < f <= frames_asked(s.stage)->0,
    ensures
        ({
            let n = spec_step(s, m, FillEvent::Wrote { frames: f, ring_full });
            &&& n.0.produced == s.produced + f
            &&& n.0.pos == s.pos + f
            &&& n.0.frames_need == s.frames_need - f
            &&& n.0.start_pos == s.start_pos
            &&& n.0.requested == s.requested
            &&& n.1 matches FillAction::Finish { write_pos, produced } ==> write_pos == s.pos + f
                && produced == s.produced + f
            &&& ring_full ==> n.1 == FillAction::Finish {
                write_pos: (s.pos + f) as u64,
                produced: (s.produced + f) as usize,
            }
        }),
{
}

/// A decoder that is ready on a clip is used as it stands only when it
/// stands at the source sample of the fill position (its offset into the
/// clip, mapped to the source rate); anywhere else, ahead or behind, it is
/// first moved to exactly that sample. What is decoded then is what is left
/// of the clip for this fill.
pub proof fn lemma_decoder_is_positioned(s: FillSession, m: Map<u64, Clip>, src_sr: u32, src_pos: u64)
    requires
        s.inv(),
        s.stage is Opening,
    ensures
        ({
            let tl_start = s.stage->Opening_tl_start;
            let can = s.stage->Opening_can_write;
            let off: int = if tl_start <= s.pos { s.pos - tl_start } else { 0 };
            let num = off * src_sr;
            let n = spec_step(s, m, FillEvent::DecoderReady { src_sr, src_pos });
            &&& n.1 is Decode || n.1 is SeekDecoder
            &&& n.1 matches FillAction::Decode { frames } ==> frames == can && is_source_sample(
                num,
                s.engine_sr,
                src_pos,
            )
            &&& n.1 matches FillAction::SeekDecoder { src_sample } ==> src_sample != src_pos
                && is_source_sample(num, s.engine_sr, src_sample)
            &&& is_source_sample(num, s.engine_sr, src_pos) ==> n.1 == FillAction::Decode { frames: can }
            &&& n.0.stage matches FillStage::Decoding { can_write } ==> can_write == can
            &&& n.0.stage matches FillStage::Seeking { can_write } ==> can_write == can
        }),
{
    let tl_start = s.stage->Opening_tl_start;
    let off = sat_sub_u64(s.pos, tl_start);
    lemma_source_position_is_source_sample(off, src_sr, s.engine_sr);
    let target = source_position(off, src_sr, s.engine_sr);
    if is_source_sample(off * src_sr, s.engine_sr, src_pos) {
        lemma_source_sample_unique(off * src_sr, s.engine_sr, src_pos, target);
    }
}

/// A decoder that failed, or a seek or decode that failed, is replaced by
/// silence for exactly the part of the clip that this fill wanted.
pub proof fn lemma_failed_clip_becomes_silence(s: FillSession, m: Map<u64, Clip>, full: bool)
    requires
        s.inv(),
    ensures
        ({
            let failed_open = spec_step(s, m, FillEvent::DecoderFailed).1;
            let failed_seek = spec_step(s, m, FillEvent::Sought { ok: false }).1;
            let done_seek = spec_step(s, m, FillEvent::Sought { ok: true }).1;
            let empty_decode = spec_step(s, m, FillEvent::Wrote { frames: 0, ring_full: full }).1;
            &&& s.stage matches FillStage::Opening { tl_start, can_write } ==> failed_open
                == (FillAction::WriteSilence { frames: can_write })
            &&& s.stage matches FillStage::Seeking { can_write } ==> failed_seek
                == (FillAction::DropDecoderAndWriteSilence { frames: can_write }) && done_seek
                == (FillAction::Decode { frames: can_write })
            &&& s.stage matches FillStage::Decoding { can_write } ==> empty_decode
                == (FillAction::DropDecoderAndWriteSilence { frames: can_write })
        }),
{
}

} // verus!
