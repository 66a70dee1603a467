use vstd::prelude::*;
use crate::unit::{CHANNELS, FIFO_MAX_FRAMES, max_int, min_int};

verus! {

/// Target fill of the resampler's source queue at normal speed, in frames.
pub const FIFO_HWM_FRAMES: usize = 48_000;

/// Below this many frames the resampler's source queue is topped up first.
pub const FIFO_LWM_FRAMES: usize = 8_192;

/// Frames pulled from a track ring in one burst at normal speed.
pub const PULL_BURST_FRAMES: usize = 4_096;

/// The least target fill of the source queue, in frames.
pub const FIFO_HWM_MIN_FRAMES: usize = 16_384;

/// The least and greatest burst, in frames.
pub const PULL_BURST_MIN_FRAMES: usize = 2_048;
pub const PULL_BURST_MAX_FRAMES: usize = 8_192;

/// The number of decoding workers.
pub const DECODING_WORKERS: usize = 4;

/// The track that decoding worker `worker_id` serves among `ntracks` tracks.
pub fn worker_track(worker_id: usize, ntracks: usize) -> (t: usize)
    requires
        ntracks > 0,
    ensures
        t == worker_id % ntracks,
        t < ntracks,
{
    worker_id % ntracks
}

/// How the resampler of one track pulls from the track's ring: the fill it
/// aims its source queue at and the size of a burst, both in frames and both
/// already scaled to the playback speed.
#[derive(Clone, Copy, Debug, PartialEq, Eq)]
pub struct PullPlan {
    pub fifo_hwm: usize,
    pub pull_burst: usize,
}

/// Frames in a source queue that holds `samples` interleaved samples.
pub fn queued_frames(samples: usize) -> (f: usize)
    ensures
        f == samples / CHANNELS,
{
    samples / CHANNELS
}

impl PullPlan {
    /// The plan for the speed-scaled target `scaled_hwm` and burst
    /// `scaled_burst`: the target is held within 16 384 frames and the queue's
    /// bound, the burst within 2 048 and 8 192 frames.
    pub fn new(scaled_hwm: usize, scaled_burst: usize) -> (p: PullPlan)
        ensures
            p.fifo_hwm == min_int(max_int(scaled_hwm as int, FIFO_HWM_MIN_FRAMES as int), FIFO_MAX_FRAMES as int),
            p.pull_burst == min_int(max_int(scaled_burst as int, PULL_BURST_MIN_FRAMES as int), PULL_BURST_MAX_FRAMES as int),
            FIFO_HWM_MIN_FRAMES <= p.fifo_hwm <= FIFO_MAX_FRAMES,
            PULL_BURST_MIN_FRAMES <= p.pull_burst <= PULL_BURST_MAX_FRAMES,
    {
        let hwm = if scaled_hwm < FIFO_HWM_MIN_FRAMES { FIFO_HWM_MIN_FRAMES } else { scaled_hwm };
        let hwm = if hwm > FIFO_MAX_FRAMES { FIFO_MAX_FRAMES } else { hwm };
        let burst = if scaled_burst < PULL_BURST_MIN_FRAMES { PULL_BURST_MIN_FRAMES } else { scaled_burst };
        let burst = if burst > PULL_BURST_MAX_FRAMES { PULL_BURST_MAX_FRAMES } else { burst };
        PullPlan { fifo_hwm: hwm, pull_burst: burst }
    }

    /// Frames to pull first when the queue holds `cur` frames: up to the low
    /// mark, but not past the target; nothing when the queue is at the low
    /// mark or above.
    pub fn low_water_pull(&self, cur: usize) -> (want: usize)
        ensures
            want == if cur < FIFO_LWM_FRAMES {
                min_int(FIFO_LWM_FRAMES - cur, if cur <= self.fifo_hwm { self.fifo_hwm - cur } else { 0 })
            } else {
                0
            },
    {
        if cur < FIFO_LWM_FRAMES {
            let to_low = FIFO_LWM_FRAMES - cur;
            let to_high = self.fifo_hwm.saturating_sub(cur);
            if to_low <= to_high { to_low } else { to_high }
        } else {
            0
        }
    }

    /// Frames to pull next when the queue holds `cur` frames: up to the target,
    /// at most eight bursts; nothing at the target or above.
    pub fn top_up_pull(&self, cur: usize) -> (want: usize)
        requires
            self.pull_burst <= PULL_BURST_MAX_FRAMES,
        ensures
            want == if cur < self.fifo_hwm { min_int(self.fifo_hwm - cur, self.pull_burst * 8) } else { 0 },
    {
        if cur < self.fifo_hwm {
            let room = self.fifo_hwm - cur;
            let cap = self.pull_burst * 8;
            if room <= cap { room } else { cap }
        } else {
            0
        }
    }

    /// Frames to pull after a stretch of output when the queue holds `cur`
    /// frames: up to the target, at most two bursts; nothing at the target or
    /// above.
    pub fn after_output_pull(&self, cur: usize) -> (want: usize)
        requires
            self.pull_burst <= PULL_BURST_MAX_FRAMES,
        ensures
            want == if cur < self.fifo_hwm { min_int(self.fifo_hwm - cur, self.pull_burst * 2) } else { 0 },
    {
        if cur < self.fifo_hwm {
            let room = self.fifo_hwm - cur;
            let cap = self.pull_burst * 2;
            if room <= cap { room } else { cap }
        } else {
            0
        }
    }

    /// Frames to pull when the queue runs dry in the middle of output: a
    /// burst, but at most the low mark and at least two.
    pub fn refill_need(&self) -> (need: usize)
        ensures
            need == max_int(2, min_int(FIFO_LWM_FRAMES as int, self.pull_burst as int)),
    {
        let n = if FIFO_LWM_FRAMES <= self.pull_burst { FIFO_LWM_FRAMES } else { self.pull_burst };
        if n < 2 { 2 } else { n }
    }

    /// The most frames the resampler writes for this track in one pass:
    /// thirty-two bursts.
    pub fn hard_quota(&self) -> (q: usize)
        requires
            self.pull_burst <= PULL_BURST_MAX_FRAMES,
        ensures
            q == self.pull_burst * 32,
    {
        self.pull_burst * 32
    }
}

} // verus!
