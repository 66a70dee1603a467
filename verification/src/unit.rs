use vstd::prelude::*;

verus! {

/// Number of interleaved channels of every ring and of the output.
pub const CHANNELS: usize = 2;

/// Capacity of a track's first ring, in frames.
pub const RB1_FRAMES: usize = 65_536;

/// Capacity of a track's playout ring, in frames.
pub const RB2_FRAMES: usize = 98_304;

/// Upper bound of the resampler's source queue, in frames.
pub const FIFO_MAX_FRAMES: usize = 98_304;

/// Frames a decoding worker asks for in one fill.
pub const CHUNK_DECODE: usize = 12_288;

/// Frames the resampler emits per unit of work.
pub const CHUNK_COPY: usize = 8_192;

/// Upper watermark of the global frame budget.
pub const HIGH_FRAMES: usize = 49_152;

/// Lower watermark of the global frame budget.
pub const LOW_FRAMES: usize = 24_576;

/// Length of the output fade-in, in frames.
pub const RAMP_FRAMES: usize = 256;

/// The smaller of two integers.
pub open spec fn min_int(a: int, b: int) -> int {
    if a <= b { a } else { b }
}

/// The greater of two integers.
pub open spec fn max_int(a: int, b: int) -> int {
    if a >= b { a } else { b }
}

/// `min_int` is the smaller and `max_int` the greater of its arguments.
pub proof fn lemma_min_max(a: int, b: int)
    ensures
        min_int(a, b) <= a && min_int(a, b) <= b && (min_int(a, b) == a || min_int(a, b) == b),
        max_int(a, b) >= a && max_int(a, b) >= b && (max_int(a, b) == a || max_int(a, b) == b),
{
}

/// Number of interleaved samples that hold `frames` frames.
pub open spec fn spec_slots(frames: nat) -> nat {
    frames * CHANNELS as nat
}

/// Converts a count of frames into the count of interleaved samples.
pub fn slots(frames: usize) -> (samples: usize)
    requires
        spec_slots(frames as nat) <= usize::MAX,
    ensures
        samples as nat == spec_slots(frames as nat),
        samples == frames * 2,
{
    frames * CHANNELS
}

} // verus!
