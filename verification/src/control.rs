use vstd::prelude::*;
use crate::unit::RB2_FRAMES;
use crate::transport::{Transport, TransportView};

verus! {

/// Frames each track ring is filled with before playback starts.
pub const PREFILL_ON_START: usize = 49_152;

/// Frames each track ring is filled with after a seek.
pub const PREFILL_ON_SEEK: usize = 24_576;

/// Frames each playout ring should hold before the output runs.
pub const PREFILL_RB2_FRAMES: usize = 49_152;

/// How long the engine lets the resampler run before it opens the output, in
/// milliseconds.
pub const SETTLE_MILLIS: u64 = 80;

/// One piece of work of a transport command, in the order the engine does
/// them.
#[derive(Clone, Copy, Debug, PartialEq, Eq)]
pub enum EngineStep {
    /// Make the decoding workers wait.
    PauseWorkers,
    /// Let the decoding workers run.
    WakeWorkers,
    /// Set the transport playing.
    StartTransport,
    /// Stop the transport.
    StopTransport,
    /// Move the playhead to `pos`.
    SeekTransport { pos: u64 },
    /// Set every track's fill position to the playhead.
    AlignWritePositions,
    /// Count one more seek, so that the resampler drops its state.
    BumpSeekEpoch,
    /// Ask the output to drop what its playout rings hold.
    RequestOutputFlush,
    /// Withdraw that request.
    ClearOutputFlush,
    /// Empty every track ring.
    FlushTrackRings,
    /// Set the frame budget to zero.
    ResetBudget,
    /// Fill every track ring with `frames` frames.
    PrefillTrackRings { frames: usize },
    /// Wait until the playout rings hold `frames` frames.
    PrefillPlayoutRings { frames: usize },
    /// Start the resampler thread.
    StartCopyThread,
    /// Stop the resampler thread and make new playout rings; to let the
    /// thread leave, the waiting threads are let go.
    StopCopyThread,
    /// Sleep for `millis` milliseconds.
    Settle { millis: u64 },
    /// Open and start the output stream; the command fails when it cannot.
    OpenOutput,
    /// Start the output stream that is already open.
    ResumeOutput,
    /// Pause the output stream and close it.
    CloseOutput,
}

/// What the playout rings are asked to hold before the output runs: the
/// prefill target, but never within 2 048 frames of their capacity.
pub open spec fn spec_playout_prefill() -> int {
    let room = if RB2_FRAMES >= 2048 { RB2_FRAMES - 2048 } else { 0 };
    if PREFILL_RB2_FRAMES <= room { PREFILL_RB2_FRAMES as int } else { room }
}

/// Computes the playout prefill target.
pub fn playout_prefill() -> (frames: usize)
    ensures
        frames <= PREFILL_RB2_FRAMES,
        frames + 2048 <= RB2_FRAMES,
        frames == PREFILL_RB2_FRAMES || frames + 2048 == RB2_FRAMES,
        frames == spec_playout_prefill(),
{
    let room = RB2_FRAMES.saturating_sub(2048);
    if PREFILL_RB2_FRAMES <= room {
        PREFILL_RB2_FRAMES
    } else {
        room
    }
}

/// The work of starting playback: line the tracks up with the playhead on
/// empty rings, fill the rings, start the resampler unless it runs, open the
/// output unless it is open (then start it again), and run.
pub open spec fn spec_play_steps(copy_thread_running: bool, output_open: bool) -> Seq<EngineStep> {
    seq![EngineStep::PauseWorkers, EngineStep::AlignWritePositions, EngineStep::FlushTrackRings,
        EngineStep::ResetBudget, EngineStep::PrefillTrackRings { frames: PREFILL_ON_START },
        EngineStep::PrefillPlayoutRings { frames: spec_playout_prefill() as usize }]
        + (if copy_thread_running { seq![] } else { seq![EngineStep::StartCopyThread] })
        + seq![EngineStep::Settle { millis: SETTLE_MILLIS }]
        + (if output_open { seq![EngineStep::ResumeOutput] } else { seq![EngineStep::OpenOutput] })
        + seq![EngineStep::ClearOutputFlush, EngineStep::StartTransport, EngineStep::WakeWorkers]
}

/// The work of stopping playback: stop the transport and make the workers
/// wait, close the output, stop the resampler (which has to let waiting
/// threads go so that it can leave), make the workers wait again, and clear
/// the budget.
pub open spec fn spec_stop_steps() -> Seq<EngineStep> {
    seq![EngineStep::StopTransport, EngineStep::PauseWorkers, EngineStep::CloseOutput,
        EngineStep::StopCopyThread, EngineStep::PauseWorkers, EngineStep::ResetBudget]
}

/// The work of a seek to `pos`: stop if playing, move the playhead, line the
/// tracks up with it, drop what every ring holds, fill the rings again and
/// play on. A seek leaves the transport playing in every case.
pub open spec fn spec_seek_steps(pos: u64, was_playing: bool) -> Seq<EngineStep> {
    (if was_playing { seq![EngineStep::StopTransport] } else { seq![] })
        + seq![EngineStep::PauseWorkers, EngineStep::SeekTransport { pos },
        EngineStep::AlignWritePositions, EngineStep::BumpSeekEpoch, EngineStep::RequestOutputFlush,
        EngineStep::FlushTrackRings, EngineStep::ResetBudget,
        EngineStep::PrefillTrackRings { frames: PREFILL_ON_SEEK },
        EngineStep::PrefillPlayoutRings { frames: spec_playout_prefill() as usize },
        EngineStep::ClearOutputFlush, EngineStep::WakeWorkers, EngineStep::StartTransport]
}

/// The steps of starting playback.
pub fn play_steps(copy_thread_running: bool, output_open: bool) -> (steps: Vec<EngineStep>)
    ensures
        steps@ == spec_play_steps(copy_thread_running, output_open),
{
    let mut steps: Vec<EngineStep> = Vec::new();
    steps.push(EngineStep::PauseWorkers);
    steps.push(EngineStep::AlignWritePositions);
    steps.push(EngineStep::FlushTrackRings);
    steps.push(EngineStep::ResetBudget);
    steps.push(EngineStep::PrefillTrackRings { frames: PREFILL_ON_START });
    steps.push(EngineStep::PrefillPlayoutRings { frames: playout_prefill() });
    if !copy_thread_running {
        steps.push(EngineStep::StartCopyThread);
    }
    steps.push(EngineStep::Settle { millis: SETTLE_MILLIS });
    if output_open {
        steps.push(EngineStep::ResumeOutput);
    } else {
        steps.push(EngineStep::OpenOutput);
    }
    steps.push(EngineStep::ClearOutputFlush);
    steps.push(EngineStep::StartTransport);
    steps.push(EngineStep::WakeWorkers);
    assert(steps@ =~= spec_play_steps(copy_thread_running, output_open));
    steps
}

/// The steps of stopping playback.
pub fn stop_steps() -> (steps: Vec<EngineStep>)
    ensures
        steps@ == spec_stop_steps(),
{
    let mut steps: Vec<EngineStep> = Vec::new();
    steps.push(EngineStep::StopTransport);
    steps.push(EngineStep::PauseWorkers);
    steps.push(EngineStep::CloseOutput);
    steps.push(EngineStep::StopCopyThread);
    steps.push(EngineStep::PauseWorkers);
    steps.push(EngineStep::ResetBudget);
    assert(steps@ =~= spec_stop_steps());
    steps
}

/// The steps of a seek to `pos`.
pub fn seek_steps(pos: u64, was_playing: bool) -> (steps: Vec<EngineStep>)
    ensures
        steps@ == spec_seek_steps(pos, was_playing),
{
    let mut steps: Vec<EngineStep> = Vec::new();
    if was_playing {
        steps.push(EngineStep::StopTransport);
    }
    steps.push(EngineStep::PauseWorkers);
    steps.push(EngineStep::SeekTransport { pos });
    steps.push(EngineStep::AlignWritePositions);
    steps.push(EngineStep::BumpSeekEpoch);
    steps.push(EngineStep::RequestOutputFlush);
    steps.push(EngineStep::FlushTrackRings);
    steps.push(EngineStep::ResetBudget);
    steps.push(EngineStep::PrefillTrackRings { frames: PREFILL_ON_SEEK });
    steps.push(EngineStep::PrefillPlayoutRings { frames: playout_prefill() });
    steps.push(EngineStep::ClearOutputFlush);
    steps.push(EngineStep::WakeWorkers);
    steps.push(EngineStep::StartTransport);
    assert(steps@ =~= spec_seek_steps(pos, was_playing));
    steps
}

/// What a step does to the transport: only starting, stopping and seeking
/// touch it.
pub open spec fn transport_after(t: TransportView, step: EngineStep) -> TransportView {
    match step {
        EngineStep::StartTransport => TransportView { playing: true, ..t },
        EngineStep::StopTransport => TransportView { playing: false, ..t },
        EngineStep::SeekTransport { pos } => TransportView { playhead: pos, ..t },
        _ => t,
    }
}

/// The transport after a whole list of steps.
pub open spec fn transport_after_all(t: TransportView, steps: Seq<EngineStep>) -> TransportView
    decreases steps.len(),
{
    if steps.len() == 0 {
        t
    } else {
        transport_after_all(transport_after(t, steps[0]), steps.drop_first())
    }
}

/// Does a step's part on the transport.
pub fn apply_to_transport(t: &mut Transport, step: &EngineStep)
    ensures
        final(t)@ == transport_after(old(t)@, *step),
{
    match step {
        EngineStep::StartTransport => t.start(),
        EngineStep::StopTransport => t.stop(),
        EngineStep::SeekTransport { pos } => t.seek_frames(*pos),
        _ => {},
    }
}

/// After a seek to `pos` the transport plays from `pos`, whether it played
/// before or not.
pub proof fn lemma_seek_plays_from_target(t: TransportView, pos: u64)
    ensures
        transport_after_all(t, spec_seek_steps(pos, t.playing)) == (TransportView {
            playing: true,
            playhead: pos,
            sample_rate: t.sample_rate,
        }),
{
    reveal_with_fuel(transport_after_all, 15);
    let steps = spec_seek_steps(pos, t.playing);
    if t.playing {
        assert(steps.len() == 13);
    } else {
        assert(steps.len() == 12);
    }
}

/// Starting playback sets the transport playing and leaves the playhead
/// where it was.
pub proof fn lemma_play_keeps_playhead(t: TransportView, copy_thread_running: bool, output_open: bool)
    ensures
        transport_after_all(t, spec_play_steps(copy_thread_running, output_open)) == (TransportView {
            playing: true,
            ..t
        }),
{
    reveal_with_fuel(transport_after_all, 15);
    let steps = spec_play_steps(copy_thread_running, output_open);
    assert(steps.len() <= 13);
}

/// Stopping playback stops the transport and leaves the playhead where it
/// was.
pub proof fn lemma_stop_keeps_playhead(t: TransportView)
    ensures
        transport_after_all(t, spec_stop_steps()) == (TransportView { playing: false, ..t }),
{
    reveal_with_fuel(transport_after_all, 7);
}

/// Whether the decoding workers wait after a step, given whether they waited
/// before: pausing makes them wait; waking them, or stopping the resampler,
/// lets them go.
pub open spec fn workers_wait_after(waiting: bool, step: EngineStep) -> bool {
    match step {
        EngineStep::PauseWorkers => true,
        EngineStep::WakeWorkers => false,
        EngineStep::StopCopyThread => false,
        _ => waiting,
    }
}

/// Whether the decoding workers wait after a whole list of steps.
pub open spec fn workers_wait_after_all(waiting: bool, steps: Seq<EngineStep>) -> bool
    decreases steps.len(),
{
    if steps.len() == 0 {
        waiting
    } else {
        workers_wait_after_all(workers_wait_after(waiting, steps[0]), steps.drop_first())
    }
}

/// Does a step's part on the workers' wait flag.
pub fn apply_to_worker_gate(waiting: &mut bool, step: &EngineStep)
    ensures
        *final(waiting) == workers_wait_after(*old(waiting), *step),
{
    match step {
        EngineStep::PauseWorkers => {
            *waiting = true;
        },
        EngineStep::WakeWorkers => {
            *waiting = false;
        },
        EngineStep::StopCopyThread => {
            *waiting = false;
        },
        _ => {},
    }
}

/// After a stop the decoding workers wait, whatever they did before.
pub proof fn lemma_stop_leaves_workers_waiting(waiting: bool)
    ensures
        workers_wait_after_all(waiting, spec_stop_steps()),
{
    reveal_with_fuel(workers_wait_after_all, 7);
}

/// After starting playback or a seek the decoding workers run.
pub proof fn lemma_play_and_seek_let_workers_run(
    waiting: bool,
    copy_thread_running: bool,
    output_open: bool,
    pos: u64,
    was_playing: bool,
)
    ensures
        !workers_wait_after_all(waiting, spec_play_steps(copy_thread_running, output_open)),
        !workers_wait_after_all(waiting, spec_seek_steps(pos, was_playing)),
{
    reveal_with_fuel(workers_wait_after_all, 15);
    assert(spec_play_steps(copy_thread_running, output_open).len() <= 13);
    assert(spec_seek_steps(pos, was_playing).len() <= 13);
}

/// A step that ends the part of a command run under the seek lock: filling
/// the rings and closing the output are done outside it.
pub open spec fn leaves_seek_lock(step: EngineStep) -> bool {
    step is PrefillTrackRings || step is CloseOutput
}

/// How many leading steps of a command run under the seek lock: all of them
/// up to the first step that fills the rings or closes the output.
pub fn locked_prefix(steps: &Vec<EngineStep>) -> (n: usize)
    ensures
        n <= steps@.len(),
        forall|i: int| 0 <= i < n ==> !leaves_seek_lock(#[trigger] steps@[i]),
        n < steps@.len() ==> leaves_seek_lock(steps@[n as int]),
{
    let mut i: usize = 0;
    while i < steps.len()
        invariant
            i <= steps@.len(),
            forall|j: int| 0 <= j < i ==> !leaves_seek_lock(#[trigger] steps@[j]),
        decreases steps@.len() - i,
    {
        match steps[i] {
            EngineStep::PrefillTrackRings { .. } => return i,
            EngineStep::CloseOutput => return i,
            _ => {},
        }
        i = i + 1;
    }
    i
}

/// In a seek, every track is lined up with the playhead only once the
/// playhead stands at the target, so the rings are filled again from the new
/// position; and the tracks are lined up at least once.
pub proof fn lemma_seek_aligns_tracks_to_target(t: TransportView, pos: u64, was_playing: bool)
    ensures
        exists|i: int|
            0 <= i < spec_seek_steps(pos, was_playing).len() && (#[trigger] spec_seek_steps(
                pos,
                was_playing,
            )[i]) is AlignWritePositions,
        forall|i: int|
            0 <= i < spec_seek_steps(pos, was_playing).len() && (#[trigger] spec_seek_steps(
                pos,
                was_playing,
            )[i]) is AlignWritePositions ==> transport_after_all(
                t,
                spec_seek_steps(pos, was_playing).take(i),
            ).playhead == pos,
{
    let steps = spec_seek_steps(pos, was_playing);
    let k: int = if was_playing { 3 } else { 2 };
    reveal_with_fuel(transport_after_all, 5);
    if was_playing {
        assert(steps =~= seq![EngineStep::StopTransport, EngineStep::PauseWorkers,
            EngineStep::SeekTransport { pos }, EngineStep::AlignWritePositions,
            EngineStep::BumpSeekEpoch, EngineStep::RequestOutputFlush, EngineStep::FlushTrackRings,
            EngineStep::ResetBudget, EngineStep::PrefillTrackRings { frames: PREFILL_ON_SEEK },
            EngineStep::PrefillPlayoutRings { frames: spec_playout_prefill() as usize },
            EngineStep::ClearOutputFlush, EngineStep::WakeWorkers, EngineStep::StartTransport]);
        assert(steps.take(3) =~= seq![EngineStep::StopTransport, EngineStep::PauseWorkers,
            EngineStep::SeekTransport { pos }]);
    } else {
        assert(steps =~= seq![EngineStep::PauseWorkers, EngineStep::SeekTransport { pos },
            EngineStep::AlignWritePositions, EngineStep::BumpSeekEpoch,
            EngineStep::RequestOutputFlush, EngineStep::FlushTrackRings, EngineStep::ResetBudget,
            EngineStep::PrefillTrackRings { frames: PREFILL_ON_SEEK },
            EngineStep::PrefillPlayoutRings { frames: spec_playout_prefill() as usize },
            EngineStep::ClearOutputFlush, EngineStep::WakeWorkers, EngineStep::StartTransport]);
        assert(steps.take(2) =~= seq![EngineStep::PauseWorkers, EngineStep::SeekTransport { pos }]);
    }
    assert(steps[k] is AlignWritePositions);
    assert forall|i: int|
        0 <= i < steps.len() && (#[trigger] steps[i]) is AlignWritePositions implies transport_after_all(
            t,
            steps.take(i),
        ).playhead == pos by {
        assert(i == k);
    }
}

/// Starting playback lines every track up with the playhead where it
/// stands, and never moves the playhead.
pub proof fn lemma_play_aligns_tracks_to_playhead(
    t: TransportView,
    copy_thread_running: bool,
    output_open: bool,
)
    ensures
        (spec_play_steps(copy_thread_running, output_open)[1]) is AlignWritePositions,
        transport_after_all(t, spec_play_steps(copy_thread_running, output_open).take(1)).playhead
            == t.playhead,
        forall|i: int|
            0 <= i < spec_play_steps(copy_thread_running, output_open).len() ==> !((#[trigger] spec_play_steps(
                copy_thread_running,
                output_open,
            )[i]) is SeekTransport),
{
    let steps = spec_play_steps(copy_thread_running, output_open);
    reveal_with_fuel(transport_after_all, 2);
    assert(steps.take(1) =~= seq![EngineStep::PauseWorkers]);
    assert forall|i: int| 0 <= i < steps.len() implies !((#[trigger] steps[i]) is SeekTransport) by {
        if i >= 6 {
            let rest = steps.subrange(6, steps.len() as int);
            assert(steps[i] == rest[i - 6]);
        }
    }
}

/// What the steps of a command leave behind besides the transport and the
/// workers: how many seeks were counted, whether the output was asked to
/// drop what it holds, whether the track rings are empty, whether the budget
/// counts what the track rings hold, whether the rings were filled since they
/// were emptied, whether the output runs and whether the resampler runs.
pub struct EngineFlags {
    pub seek_epoch: int,
    pub flush_pending: bool,
    pub rings_empty: bool,
    pub budget_counts_rings: bool,
    pub refilled: bool,
    pub output_running: bool,
    pub resampler_running: bool,
}

/// What a step does to those flags. Emptying the rings leaves a budget that
/// still counts the dropped frames until it is cleared; filling the rings
/// keeps the budget's count right, since the frames written are added to it.
pub open spec fn flags_after(f: EngineFlags, step: EngineStep) -> EngineFlags {
    match step {
        EngineStep::BumpSeekEpoch => EngineFlags { seek_epoch: f.seek_epoch + 1, ..f },
        EngineStep::RequestOutputFlush => EngineFlags { flush_pending: true, ..f },
        EngineStep::ClearOutputFlush => EngineFlags { flush_pending: false, ..f },
        EngineStep::FlushTrackRings => EngineFlags {
            rings_empty: true,
            budget_counts_rings: false,
            refilled: false,
            ..f
        },
        EngineStep::ResetBudget => EngineFlags { budget_counts_rings: f.rings_empty, ..f },
        EngineStep::PrefillTrackRings { .. } => EngineFlags {
            rings_empty: false,
            refilled: true,
            ..f
        },
        EngineStep::OpenOutput => EngineFlags { output_running: true, ..f },
        EngineStep::ResumeOutput => EngineFlags { output_running: true, ..f },
        EngineStep::CloseOutput => EngineFlags { output_running: false, ..f },
        EngineStep::StartCopyThread => EngineFlags { resampler_running: true, ..f },
        EngineStep::StopCopyThread => EngineFlags { resampler_running: false, ..f },
        _ => f,
    }
}

/// The flags after a whole list of steps.
pub open spec fn flags_after_all(f: EngineFlags, steps: Seq<EngineStep>) -> EngineFlags
    decreases steps.len(),
{
    if steps.len() == 0 {
        f
    } else {
        flags_after_all(flags_after(f, steps[0]), steps.drop_first())
    }
}

/// A seek counts exactly one more seek, drops what every ring held, fills
/// the track rings again afterwards with a budget that counts what they hold,
/// and leaves no drop request pending for the output.
pub proof fn lemma_seek_starts_clean(f: EngineFlags, pos: u64, was_playing: bool)
    ensures
        ({
            let g = flags_after_all(f, spec_seek_steps(pos, was_playing));
            &&& g.seek_epoch == f.seek_epoch + 1
            &&& g.budget_counts_rings
            &&& g.refilled
            &&& !g.flush_pending
            &&& g.output_running == f.output_running
            &&& g.resampler_running == f.resampler_running
        }),
{
    reveal_with_fuel(flags_after_all, 14);
    if was_playing {
        assert(spec_seek_steps(pos, was_playing).len() == 13);
    } else {
        assert(spec_seek_steps(pos, was_playing).len() == 12);
    }
}

/// Starting playback empties the track rings, fills them again with a
/// budget that counts what they hold, and leaves the resampler and the output
/// running with no drop request pending.
pub proof fn lemma_play_starts_clean(f: EngineFlags, output_open: bool)
    ensures
        ({
            let g = flags_after_all(
                EngineFlags { resampler_running: false, ..f },
                spec_play_steps(false, output_open),
            );
            let h = flags_after_all(
                EngineFlags { resampler_running: true, ..f },
                spec_play_steps(true, output_open),
            );
            &&& g.budget_counts_rings && g.refilled && !g.flush_pending
            &&& g.output_running && g.resampler_running
            &&& h.budget_counts_rings && h.refilled && !h.flush_pending
            &&& h.output_running && h.resampler_running
            &&& g.seek_epoch == f.seek_epoch && h.seek_epoch == f.seek_epoch
        }),
{
    reveal_with_fuel(flags_after_all, 14);
    assert(spec_play_steps(false, output_open).len() == 12);
    assert(spec_play_steps(true, output_open).len() == 11);
}

/// Stopping playback closes the output and stops the resampler.
pub proof fn lemma_stop_closes_output(f: EngineFlags)
    ensures
        !flags_after_all(f, spec_stop_steps()).output_running,
        !flags_after_all(f, spec_stop_steps()).resampler_running,
        flags_after_all(f, spec_stop_steps()).seek_epoch == f.seek_epoch,
{
    reveal_with_fuel(flags_after_all, 7);
}

/// The transport starts only once the track rings have been filled again,
/// the output runs and no drop request is pending, in starting playback and
/// in a seek alike.
pub proof fn lemma_transport_starts_last(
    f: EngineFlags,
    copy_thread_running: bool,
    output_open: bool,
    pos: u64,
    was_playing: bool,
)
    ensures
        forall|i: int|
            0 <= i < spec_play_steps(copy_thread_running, output_open).len() && (#[trigger] spec_play_steps(
                copy_thread_running,
                output_open,
            )[i]) is StartTransport ==> ({
                let g = flags_after_all(f, spec_play_steps(copy_thread_running, output_open).take(i));
                g.refilled && g.output_running && !g.flush_pending
            }),
        forall|i: int|
            0 <= i < spec_seek_steps(pos, was_playing).len() && (#[trigger] spec_seek_steps(
                pos,
                was_playing,
            )[i]) is StartTransport ==> ({
                let g = flags_after_all(f, spec_seek_steps(pos, was_playing).take(i));
                g.refilled && !g.flush_pending && g.output_running == f.output_running
            }),
{
    reveal_with_fuel(flags_after_all, 14);
    let play = spec_play_steps(copy_thread_running, output_open);
    let out = if output_open { EngineStep::ResumeOutput } else { EngineStep::OpenOutput };
    let head = seq![EngineStep::PauseWorkers, EngineStep::AlignWritePositions,
        EngineStep::FlushTrackRings, EngineStep::ResetBudget,
        EngineStep::PrefillTrackRings { frames: PREFILL_ON_START },
        EngineStep::PrefillPlayoutRings { frames: spec_playout_prefill() as usize }];
    let pk: int = if copy_thread_running { 9 } else { 10 };
    if copy_thread_running {
        assert(play =~= head + seq![EngineStep::Settle { millis: SETTLE_MILLIS }, out,
            EngineStep::ClearOutputFlush, EngineStep::StartTransport, EngineStep::WakeWorkers]);
        assert(play.take(9) =~= head + seq![EngineStep::Settle { millis: SETTLE_MILLIS }, out,
            EngineStep::ClearOutputFlush]);
    } else {
        assert(play =~= head + seq![EngineStep::StartCopyThread,
            EngineStep::Settle { millis: SETTLE_MILLIS }, out, EngineStep::ClearOutputFlush,
            EngineStep::StartTransport, EngineStep::WakeWorkers]);
        assert(play.take(10) =~= head + seq![EngineStep::StartCopyThread,
            EngineStep::Settle { millis: SETTLE_MILLIS }, out, EngineStep::ClearOutputFlush]);
    }
    assert forall|i: int| 0 <= i < play.len() && (#[trigger] play[i]) is StartTransport implies ({
        let g = flags_after_all(f, play.take(i));
        g.refilled && g.output_running && !g.flush_pending
    }) by {
        assert(i == pk);
    }
    let seek = spec_seek_steps(pos, was_playing);
    let tail = seq![EngineStep::PauseWorkers, EngineStep::SeekTransport { pos },
        EngineStep::AlignWritePositions, EngineStep::BumpSeekEpoch, EngineStep::RequestOutputFlush,
        EngineStep::FlushTrackRings, EngineStep::ResetBudget,
        EngineStep::PrefillTrackRings { frames: PREFILL_ON_SEEK },
        EngineStep::PrefillPlayoutRings { frames: spec_playout_prefill() as usize },
        EngineStep::ClearOutputFlush, EngineStep::WakeWorkers];
    let sk: int = if was_playing { 12 } else { 11 };
    if was_playing {
        assert(seek =~= seq![EngineStep::StopTransport] + tail + seq![EngineStep::StartTransport]);
        assert(seek.take(12) =~= seq![EngineStep::StopTransport] + tail);
    } else {
        assert(seek =~= tail + seq![EngineStep::StartTransport]);
        assert(seek.take(11) =~= tail);
    }
    assert forall|i: int| 0 <= i < seek.len() && (#[trigger] seek[i]) is StartTransport implies ({
        let g = flags_after_all(f, seek.take(i));
        g.refilled && !g.flush_pending && g.output_running == f.output_running
    }) by {
        assert(i == sk);
    }
}

} // verus!
