use ryuichi::budget::{watermark_crossed, worker_should_wait, Budget};
use ryuichi::transport::Transport;
use ryuichi::unit::{slots, HIGH_FRAMES, LOW_FRAMES, RB1_FRAMES};

#[test]
fn transport_starts_stopped_at_zero() {
    let t = Transport::new(48_000);
    assert_eq!(t.sr(), 48_000);
    assert!(!t.in_playing());
    assert_eq!(t.pos_frames(), 0);
}

#[test]
fn transport_start_stop_keep_playhead() {
    let mut t = Transport::new(44_100);
    t.seek_frames(1_000);
    t.start();
    assert!(t.in_playing());
    assert_eq!(t.pos_frames(), 1_000);
    t.stop();
    assert!(!t.in_playing());
    assert_eq!(t.pos_frames(), 1_000);
}

#[test]
fn transport_seek_then_advance() {
    let mut t = Transport::new(48_000);
    t.seek_frames(100);
    assert_eq!(t.pos_frames(), 100);
    t.advance_frames(5);
    assert_eq!(t.pos_frames(), 105);
}

#[test]
fn transport_advance_wraps_around() {
    let mut t = Transport::new(48_000);
    t.seek_frames(u64::MAX);
    t.advance_frames(2);
    assert_eq!(t.pos_frames(), 1);
}

#[test]
fn transport_set_sr() {
    let mut t = Transport::new(48_000);
    t.set_sr(96_000);
    assert_eq!(t.sr(), 96_000);
}

#[test]
fn budget_add_and_sub() {
    let mut b = Budget::new();
    assert_eq!(b.frames(), 0);
    b.add(300);
    b.add(0);
    assert_eq!(b.frames(), 300);
    b.sub(100);
    assert_eq!(b.frames(), 200);
    b.sub(0);
    assert_eq!(b.frames(), 200);
}

#[test]
fn budget_sub_stops_at_zero() {
    let mut b = Budget::new();
    b.add(10);
    b.sub(25);
    assert_eq!(b.frames(), 0);
}

#[test]
fn budget_add_then_sub_restores() {
    let mut b = Budget::new();
    b.add(1_234);
    b.add(4_096);
    b.sub(4_096);
    assert_eq!(b.frames(), 1_234);
}

#[test]
fn budget_add_wraps_around() {
    let mut b = Budget::new();
    b.add(usize::MAX);
    b.add(3);
    assert_eq!(b.frames(), 2);
}

#[test]
fn budget_reset() {
    let mut b = Budget::new();
    b.add(77);
    b.reset();
    assert_eq!(b.frames(), 0);
}

#[test]
fn watermark_crossings() {
    assert!(watermark_crossed(HIGH_FRAMES + 1, HIGH_FRAMES));
    assert!(!watermark_crossed(HIGH_FRAMES, HIGH_FRAMES - 1));
    assert!(watermark_crossed(LOW_FRAMES, LOW_FRAMES - 1));
    assert!(!watermark_crossed(30_000, 25_000));
    assert!(!watermark_crossed(LOW_FRAMES - 1, 0));
    assert!(watermark_crossed(60_000, 0));
}

#[test]
fn worker_waits_only_over_budget_with_full_ring() {
    assert!(worker_should_wait(HIGH_FRAMES + 1, true));
    assert!(!worker_should_wait(HIGH_FRAMES, true));
    assert!(!worker_should_wait(HIGH_FRAMES + 1, false));
}

#[test]
fn slots_counts_interleaved_samples() {
    assert_eq!(slots(RB1_FRAMES), 131_072);
    assert_eq!(slots(0), 0);
    assert_eq!(slots(3), 6);
}
