use vstd::prelude::*;

verus! {

/// The play clock: whether the engine plays, where the playhead stands (in
/// frames) and the sample rate of the output.
pub struct Transport {
    playing: bool,
    playhead_frames: u64,
    sample_rate: u32,
}

/// What a transport holds, as plain values.
pub struct TransportView {
    pub playing: bool,
    pub playhead: u64,
    pub sample_rate: u32,
}

impl View for Transport {
    type V = TransportView;

    closed spec fn view(&self) -> TransportView {
        TransportView {
            playing: self.playing,
            playhead: self.playhead_frames,
            sample_rate: self.sample_rate,
        }
    }
}

/// The playhead `p` moved forward by `s` frames, wrapping around at 2^64.
pub open spec fn playhead_after_advance(p: u64, s: u64) -> u64 {
    if p + s > u64::MAX { (p + s - u64::MAX - 1) as u64 } else { (p + s) as u64 }
}

impl Transport {
    /// A stopped transport at frame 0 running at `sr`.
    pub fn new(sr: u32) -> (t: Transport)
        ensures
            !t@.playing,
            t@.playhead == 0,
            t@.sample_rate == sr,
    {
        Transport { playing: false, playhead_frames: 0, sample_rate: sr }
    }

    /// Sets the sample rate.
    pub fn set_sr(&mut self, sr: u32)
        ensures
            final(self)@.sample_rate == sr,
            final(self)@.playing == old(self)@.playing,
            final(self)@.playhead == old(self)@.playhead,
    {
        self.sample_rate = sr;
    }

    /// The sample rate.
    pub fn sr(&self) -> (sr: u32)
        ensures
            sr == self@.sample_rate,
    {
        self.sample_rate
    }

    /// Starts playing.
    pub fn start(&mut self)
        ensures
            final(self)@.playing,
            final(self)@.playhead == old(self)@.playhead,
            final(self)@.sample_rate == old(self)@.sample_rate,
    {
        self.playing = true;
    }

    /// Stops playing; the playhead stays where it is.
    pub fn stop(&mut self)
        ensures
            !final(self)@.playing,
            final(self)@.playhead == old(self)@.playhead,
            final(self)@.sample_rate == old(self)@.sample_rate,
    {
        self.playing = false;
    }

    /// Whether the transport plays.
    pub fn in_playing(&self) -> (playing: bool)
        ensures
            playing == self@.playing,
    {
        self.playing
    }

    /// Moves the playhead to frame `s`.
    pub fn seek_frames(&mut self, s: u64)
        ensures
            final(self)@.playhead == s,
            final(self)@.playing == old(self)@.playing,
            final(self)@.sample_rate == old(self)@.sample_rate,
    {
        self.playhead_frames = s;
    }

    /// The playhead, in frames.
    pub fn pos_frames(&self) -> (pos: u64)
        ensures
            pos == self@.playhead,
    {
        self.playhead_frames
    }

    /// Moves the playhead forward by `s` frames, wrapping around at 2^64 as
    /// an atomic add does.
    pub fn advance_frames(&mut self, s: u64)
        ensures
            final(self)@.playhead == playhead_after_advance(old(self)@.playhead, s),
            old(self)@.playhead + s <= u64::MAX ==> final(self)@.playhead == old(self)@.playhead + s,
            old(self)@.playhead + s > u64::MAX ==> final(self)@.playhead == old(self)@.playhead + s
                - (u64::MAX + 1),
            final(self)@.playing == old(self)@.playing,
            final(self)@.sample_rate == old(self)@.sample_rate,
    {
        self.playhead_frames = self.playhead_frames.wrapping_add(s);
    }
}

} // verus!
