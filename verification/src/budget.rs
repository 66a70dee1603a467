use vstd::prelude::*;
use crate::unit::{HIGH_FRAMES, LOW_FRAMES};

verus! {

/// The global count of decoded frames that wait in the track rings: the
/// decoding workers add what they produce, the playout side takes off what it
/// consumes. It never goes below zero.
pub struct Budget {
    frames: usize,
}

impl View for Budget {
    type V = nat;

    closed spec fn view(&self) -> nat {
        self.frames as nat
    }
}

impl Budget {
    /// An empty budget.
    pub fn new() -> (b: Budget)
        ensures
            b@ == 0,
    {
        Budget { frames: 0 }
    }

    /// Adds `n` frames, wrapping around at the width of `usize` as an atomic
    /// add does.
    pub fn add(&mut self, n: usize)
        ensures
            final(self)@ == budget_after_add(old(self)@, n as nat),
            old(self)@ + n <= usize::MAX ==> final(self)@ == old(self)@ + n,
            old(self)@ + n > usize::MAX ==> final(self)@ == old(self)@ + n - (usize::MAX + 1),
    {
        if n == 0 {
            return ;
        }
        self.frames = self.frames.wrapping_add(n);
    }

    /// Takes off `n` frames, stopping at zero.
    pub fn sub(&mut self, n: usize)
        ensures
            final(self)@ == budget_after_sub(old(self)@, n as nat),
            n <= old(self)@ ==> final(self)@ == old(self)@ - n,
            n > old(self)@ ==> final(self)@ == 0,
    {
        if n == 0 {
            return ;
        }
        self.frames = self.frames.saturating_sub(n);
    }

    /// The frames counted now.
    pub fn frames(&self) -> (f: usize)
        ensures
            f == self@,
    {
        self.frames
    }

    /// Sets the count back to zero.
    pub fn reset(&mut self)
        ensures
            final(self)@ == 0,
    {
        self.frames = 0;
    }
}

/// Whether a budget that went from `before` to `after` frames crossed the
/// upper watermark downwards or the lower one downwards; the playout side
/// wakes the workers when it does.
pub open spec fn spec_watermark_crossed(before: nat, after: nat) -> bool {
    (before > HIGH_FRAMES && after <= HIGH_FRAMES) || (before >= LOW_FRAMES && after < LOW_FRAMES)
}

/// Tells whether taking the budget from `before` to `after` frames crossed a
/// watermark downwards.
pub fn watermark_crossed(before: usize, after: usize) -> (crossed: bool)
    ensures
        crossed == spec_watermark_crossed(before as nat, after as nat),
        before > HIGH_FRAMES && after <= HIGH_FRAMES ==> crossed,
        before >= LOW_FRAMES && after < LOW_FRAMES ==> crossed,
        crossed ==> (before > HIGH_FRAMES && after <= HIGH_FRAMES) || (before >= LOW_FRAMES
            && after < LOW_FRAMES),
{
    let crossed_high = before > HIGH_FRAMES && after <= HIGH_FRAMES;
    let crossed_low = before >= LOW_FRAMES && after < LOW_FRAMES;
    crossed_high || crossed_low
}

/// A decoding worker waits when the budget is above the upper watermark and
/// its own ring is full.
pub fn worker_should_wait(budget_frames: usize, ring_full: bool) -> (wait: bool)
    ensures
        wait == (budget_frames > HIGH_FRAMES && ring_full),
{
    budget_frames > HIGH_FRAMES && ring_full
}

/// The count after adding `n` frames to `b`: the sum, wrapping around at the
/// width of `usize`.
pub open spec fn budget_after_add(b: nat, n: nat) -> nat {
    if b + n > usize::MAX { (b + n - usize::MAX - 1) as nat } else { b + n }
}

/// The count after taking `n` frames off `b`: the difference, or zero when
/// `n` exceeds `b`.
pub open spec fn budget_after_sub(b: nat, n: nat) -> nat {
    if n <= b { (b - n) as nat } else { 0 }
}

/// Taking off what was just added gives the count back, as long as the add
/// did not wrap around.
pub proof fn lemma_add_then_sub_restores(b: nat, n: nat)
    requires
        b + n <= usize::MAX,
    ensures
        budget_after_sub(budget_after_add(b, n), n) == b,
{
}

} // verus!
