use ryuichi::timeline::{track_index, Clip, Timelines, TrackTimeline};

fn clip(path: &str, start: u64, len: u64) -> Clip {
    Clip { file_path: path.to_string(), src_sr: 44_100, tl_start: start, tl_len: len }
}

#[test]
fn track_index_bounds() {
    assert_eq!(track_index(0, 4), Some(0));
    assert_eq!(track_index(3, 4), Some(3));
    assert_eq!(track_index(4, 4), None);
    assert_eq!(track_index(-1, 4), None);
}

#[test]
fn add_clip_places_clip_at_its_start() {
    let mut t = Timelines::new(4);
    assert!(t.add_clip(1, "a.wav".to_string(), 480, 960, 44_100));
    assert_eq!(t.track(1).clips.get(&480), Some(&clip("a.wav", 480, 960)));
    assert!(t.track(0).clips.is_empty());
}

#[test]
fn add_clip_refusals() {
    let mut t = Timelines::new(4);
    assert!(!t.add_clip(4, "a.wav".to_string(), 0, 10, 48_000));
    assert!(!t.add_clip(-1, "a.wav".to_string(), 0, 10, 48_000));
    assert!(!t.add_clip(0, "a.wav".to_string(), 0, 0, 48_000));
    for i in 0..4 {
        assert!(t.track(i).clips.is_empty());
    }
}

#[test]
fn add_clip_replaces_clip_at_same_start() {
    let mut t = Timelines::new(2);
    assert!(t.add_clip(0, "a.wav".to_string(), 100, 10, 48_000));
    assert!(t.add_clip(0, "b.wav".to_string(), 100, 20, 48_000));
    assert_eq!(t.track(0).clips.len(), 1);
    assert_eq!(t.track(0).clips[&100].file_path, "b.wav");
}

#[test]
fn add_then_delete_restores() {
    let mut t = Timelines::new(2);
    assert!(t.add_clip(0, "a.wav".to_string(), 0, 5, 48_000));
    assert!(t.add_clip(1, "b.wav".to_string(), 7, 5, 48_000));
    assert!(t.delete_clip_by_start(1, 7));
    assert!(t.track(1).clips.is_empty());
    assert_eq!(t.track(0).clips.len(), 1);
}

#[test]
fn delete_missing_clip_is_accepted() {
    let mut t = Timelines::new(2);
    assert!(t.delete_clip_by_start(0, 12));
    assert!(!t.delete_clip_by_start(2, 12));
}

#[test]
fn move_clip_between_tracks() {
    let mut t = Timelines::new(4);
    assert!(t.add_clip(0, "a.wav".to_string(), 100, 50, 44_100));
    assert!(t.move_clip_by_start(0, 100, 2, 300));
    assert!(t.track(0).clips.is_empty());
    assert_eq!(t.track(2).clips[&300], clip("a.wav", 300, 50));
}

#[test]
fn move_clip_refusals() {
    let mut t = Timelines::new(2);
    assert!(t.add_clip(0, "a.wav".to_string(), 100, 50, 44_100));
    assert!(!t.move_clip_by_start(0, 99, 1, 0));
    assert!(!t.move_clip_by_start(0, 100, 5, 0));
    assert!(!t.move_clip_by_start(-3, 100, 1, 0));
    assert_eq!(t.track(0).clips[&100], clip("a.wav", 100, 50));
    assert!(t.track(1).clips.is_empty());
}

#[test]
fn move_then_move_back_restores() {
    let mut t = Timelines::new(3);
    assert!(t.add_clip(0, "a.wav".to_string(), 100, 50, 44_100));
    assert!(t.add_clip(2, "b.wav".to_string(), 10, 5, 48_000));
    assert!(t.move_clip_by_start(0, 100, 2, 500));
    assert!(t.move_clip_by_start(2, 500, 0, 100));
    assert_eq!(t.track(0).clips.len(), 1);
    assert_eq!(t.track(0).clips[&100], clip("a.wav", 100, 50));
    assert_eq!(t.track(2).clips.len(), 1);
    assert_eq!(t.track(2).clips[&10].file_path, "b.wav");
}

#[test]
fn finish_fill_only_where_position_unchanged() {
    let mut t = Timelines::new(2);
    assert!(t.finish_fill(0, 0, 480));
    assert_eq!(t.track(0).write_pos_frames, 480);
    t.align_write_pos(10_000);
    assert!(!t.finish_fill(1, 0, 480));
    assert_eq!(t.track(1).write_pos_frames, 10_000);
}

#[test]
fn move_onto_same_place_keeps_clip() {
    let mut t = Timelines::new(1);
    assert!(t.add_clip(0, "a.wav".to_string(), 100, 50, 44_100));
    assert!(t.move_clip_by_start(0, 100, 0, 100));
    assert_eq!(t.track(0).clips[&100], clip("a.wav", 100, 50));
}

#[test]
fn align_write_positions() {
    let mut t = Timelines::new(3);
    t.set_write_pos(1, 77);
    t.align_write_pos(1_000);
    for i in 0..3 {
        assert_eq!(t.track(i).write_pos_frames, 1_000);
    }
}

#[test]
fn lookups_on_a_timeline() {
    let mut tl = TrackTimeline::new();
    tl.clips.insert(100, clip("a.wav", 100, 50));
    tl.clips.insert(300, clip("b.wav", 300, 10));
    assert_eq!(tl.latest_start_at_or_before(99), None);
    assert_eq!(tl.latest_start_at_or_before(100), Some(100));
    assert_eq!(tl.latest_start_at_or_before(1_000), Some(300));
    assert_eq!(tl.earliest_start_after(0), Some(100));
    assert_eq!(tl.earliest_start_after(100), Some(300));
    assert_eq!(tl.earliest_start_after(300), None);
    assert_eq!(tl.active_clip_at(120), Some(100));
    assert_eq!(tl.active_clip_at(150), None);
    assert_eq!(tl.active_clip_at(305), Some(300));
    assert_eq!(tl.active_clip_at(50), None);
}

#[test]
fn active_clip_only_looks_at_latest_start() {
    let mut tl = TrackTimeline::new();
    tl.clips.insert(0, clip("long.wav", 0, 1_000));
    tl.clips.insert(100, clip("short.wav", 100, 100));
    assert_eq!(tl.active_clip_at(150), Some(100));
    assert_eq!(tl.active_clip_at(500), None);
}

#[test]
fn clip_end_saturates() {
    let mut tl = TrackTimeline::new();
    tl.clips.insert(u64::MAX - 5, clip("x.wav", u64::MAX - 5, 100));
    assert_eq!(tl.active_clip_at(u64::MAX - 1), Some(u64::MAX - 5));
}
