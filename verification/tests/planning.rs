use ryuichi::control::{
    apply_to_transport, apply_to_worker_gate, locked_prefix, play_steps, playout_prefill, seek_steps, stop_steps, EngineStep,
    PREFILL_ON_SEEK, PREFILL_ON_START,
};
use ryuichi::scheduling::{queued_frames, worker_track, PullPlan};
use ryuichi::transport::Transport;

#[test]
fn worker_track_choice() {
    assert_eq!(worker_track(0, 4), 0);
    assert_eq!(worker_track(5, 4), 1);
    assert_eq!(worker_track(3, 2), 1);
}

#[test]
fn pull_plan_clamps() {
    let p = PullPlan::new(48_000, 4_096);
    assert_eq!(p, PullPlan { fifo_hwm: 48_000, pull_burst: 4_096 });
    let p = PullPlan::new(12_000, 1_024);
    assert_eq!(p, PullPlan { fifo_hwm: 16_384, pull_burst: 2_048 });
    let p = PullPlan::new(192_000, 16_384);
    assert_eq!(p, PullPlan { fifo_hwm: 98_304, pull_burst: 8_192 });
}

#[test]
fn pull_amounts() {
    let p = PullPlan::new(48_000, 4_096);
    assert_eq!(p.low_water_pull(0), 8_192);
    assert_eq!(p.low_water_pull(8_000), 192);
    assert_eq!(p.low_water_pull(9_000), 0);
    assert_eq!(p.top_up_pull(40_000), 8_000);
    assert_eq!(p.top_up_pull(0), 32_768);
    assert_eq!(p.top_up_pull(48_000), 0);
    assert_eq!(p.after_output_pull(0), 8_192);
    assert_eq!(p.after_output_pull(47_000), 1_000);
    assert_eq!(p.refill_need(), 4_096);
    assert_eq!(p.hard_quota(), 131_072);
    assert_eq!(PullPlan::new(0, 10_000).refill_need(), 8_192);
    assert_eq!(queued_frames(9), 4);
}

#[test]
fn play_step_lists() {
    let prefill = playout_prefill();
    assert_eq!(prefill, 49_152);
    let steps = play_steps(false, false);
    assert_eq!(
        steps,
        vec![
            EngineStep::PauseWorkers,
            EngineStep::AlignWritePositions,
            EngineStep::FlushTrackRings,
            EngineStep::ResetBudget,
            EngineStep::PrefillTrackRings { frames: PREFILL_ON_START },
            EngineStep::PrefillPlayoutRings { frames: prefill },
            EngineStep::StartCopyThread,
            EngineStep::Settle { millis: 80 },
            EngineStep::OpenOutput,
            EngineStep::ClearOutputFlush,
            EngineStep::StartTransport,
            EngineStep::WakeWorkers,
        ]
    );
    let again = play_steps(true, true);
    assert!(!again.contains(&EngineStep::StartCopyThread));
    assert!(again.contains(&EngineStep::ResumeOutput));
    assert_eq!(again.len(), 11);
}

#[test]
fn stop_step_list() {
    assert_eq!(
        stop_steps(),
        vec![
            EngineStep::StopTransport,
            EngineStep::PauseWorkers,
            EngineStep::CloseOutput,
            EngineStep::StopCopyThread,
            EngineStep::PauseWorkers,
            EngineStep::ResetBudget,
        ]
    );
}

#[test]
fn stop_leaves_workers_waiting() {
    for start in [false, true] {
        let mut waiting = start;
        for s in &stop_steps() {
            apply_to_worker_gate(&mut waiting, s);
        }
        assert!(waiting);
    }
}

#[test]
fn play_and_seek_let_workers_run() {
    let mut waiting = true;
    for s in &play_steps(false, false) {
        apply_to_worker_gate(&mut waiting, s);
    }
    assert!(!waiting);
    let mut waiting = true;
    for s in &seek_steps(10, true) {
        apply_to_worker_gate(&mut waiting, s);
    }
    assert!(!waiting);
}

#[test]
fn seek_lock_covers_leading_steps() {
    assert_eq!(locked_prefix(&play_steps(false, false)), 4);
    assert_eq!(locked_prefix(&seek_steps(5, true)), 8);
    assert_eq!(locked_prefix(&seek_steps(5, false)), 7);
    assert_eq!(locked_prefix(&stop_steps()), 2);
    assert_eq!(locked_prefix(&vec![EngineStep::WakeWorkers]), 1);
}

#[test]
fn seek_leaves_transport_playing_at_target() {
    for was_playing in [false, true] {
        let mut t = Transport::new(48_000);
        t.seek_frames(7);
        if was_playing {
            t.start();
        }
        let steps = seek_steps(96_000, was_playing);
        assert!(steps.contains(&EngineStep::PrefillTrackRings { frames: PREFILL_ON_SEEK }));
        for s in &steps {
            apply_to_transport(&mut t, s);
        }
        assert!(t.in_playing());
        assert_eq!(t.pos_frames(), 96_000);
        assert_eq!(steps[0] == EngineStep::StopTransport, was_playing);
    }
}

#[test]
fn play_and_stop_keep_playhead() {
    let mut t = Transport::new(48_000);
    t.seek_frames(500);
    for s in &play_steps(false, true) {
        apply_to_transport(&mut t, s);
    }
    assert!(t.in_playing());
    assert_eq!(t.pos_frames(), 500);
    for s in &stop_steps() {
        apply_to_transport(&mut t, s);
    }
    assert!(!t.in_playing());
    assert_eq!(t.pos_frames(), 500);
}
