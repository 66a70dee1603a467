use ryuichi::fill::{decoder_fits, source_sample, FillAction, FillEvent, FillSession};
use ryuichi::timeline::{Clip, TrackTimeline};

fn timeline_with(clips: &[(u64, u64, &str)]) -> TrackTimeline {
    let mut tl = TrackTimeline::new();
    for &(start, len, path) in clips {
        tl.clips.insert(
            start,
            Clip { file_path: path.to_string(), src_sr: 48_000, tl_start: start, tl_len: len },
        );
    }
    tl
}

#[test]
fn fill_gap_clip_gap() {
    let tl = timeline_with(&[(100, 50, "a.wav")]);
    let (mut s, a) = FillSession::start(&tl, 200, false, 48_000);
    assert_eq!(a, FillAction::WriteSilence { frames: 100 });
    let a = s.step(&tl, FillEvent::Wrote { frames: 100, ring_full: false });
    assert_eq!(a, FillAction::OpenDecoder { clip_start: 100 });
    let a = s.step(&tl, FillEvent::DecoderReady { src_sr: 48_000, src_pos: 0 });
    assert_eq!(a, FillAction::Decode { frames: 50 });
    let a = s.step(&tl, FillEvent::Wrote { frames: 50, ring_full: false });
    assert_eq!(a, FillAction::WriteSilence { frames: 50 });
    let a = s.step(&tl, FillEvent::Wrote { frames: 50, ring_full: false });
    assert_eq!(a, FillAction::Finish { write_pos: 200, produced: 200 });
}

#[test]
fn fill_nothing_needed_or_ring_full() {
    let tl = timeline_with(&[]);
    let (_, a) = FillSession::start(&tl, 0, false, 48_000);
    assert_eq!(a, FillAction::Finish { write_pos: 0, produced: 0 });
    let (_, a) = FillSession::start(&tl, 64, true, 48_000);
    assert_eq!(a, FillAction::Finish { write_pos: 0, produced: 0 });
}

#[test]
fn fill_empty_timeline_is_all_silence() {
    let tl = timeline_with(&[]);
    let (mut s, a) = FillSession::start(&tl, 64, false, 48_000);
    assert_eq!(a, FillAction::WriteSilence { frames: 64 });
    let a = s.step(&tl, FillEvent::Wrote { frames: 64, ring_full: false });
    assert_eq!(a, FillAction::Finish { write_pos: 64, produced: 64 });
}

#[test]
fn fill_stops_when_ring_refuses_silence() {
    let tl = timeline_with(&[]);
    let (mut s, _) = FillSession::start(&tl, 64, false, 48_000);
    let a = s.step(&tl, FillEvent::Wrote { frames: 0, ring_full: true });
    assert_eq!(a, FillAction::Finish { write_pos: 0, produced: 0 });
}

#[test]
fn fill_stops_when_ring_fills_up() {
    let tl = timeline_with(&[]);
    let (mut s, _) = FillSession::start(&tl, 64, false, 48_000);
    let a = s.step(&tl, FillEvent::Wrote { frames: 10, ring_full: true });
    assert_eq!(a, FillAction::Finish { write_pos: 10, produced: 10 });
}

#[test]
fn fill_decoder_failure_writes_silence() {
    let tl = timeline_with(&[(0, 30, "missing.wav")]);
    let (mut s, a) = FillSession::start(&tl, 40, false, 48_000);
    assert_eq!(a, FillAction::OpenDecoder { clip_start: 0 });
    let a = s.step(&tl, FillEvent::DecoderFailed);
    assert_eq!(a, FillAction::WriteSilence { frames: 30 });
    let a = s.step(&tl, FillEvent::Wrote { frames: 30, ring_full: false });
    assert_eq!(a, FillAction::WriteSilence { frames: 10 });
}

#[test]
fn fill_failing_decoder_and_full_ring_end_the_fill() {
    let tl = timeline_with(&[(0, 30, "missing.wav")]);
    let (mut s, _) = FillSession::start(&tl, 10, false, 48_000);
    let a = s.step(&tl, FillEvent::DecoderFailed);
    assert_eq!(a, FillAction::WriteSilence { frames: 10 });
    let a = s.step(&tl, FillEvent::Wrote { frames: 0, ring_full: true });
    assert_eq!(a, FillAction::Finish { write_pos: 0, produced: 0 });
}

#[test]
fn fill_recovery_stops_when_ring_fills_up() {
    let tl = timeline_with(&[(0, 30, "missing.wav")]);
    let (mut s, _) = FillSession::start(&tl, 40, false, 48_000);
    s.step(&tl, FillEvent::DecoderFailed);
    let a = s.step(&tl, FillEvent::Wrote { frames: 12, ring_full: true });
    assert_eq!(a, FillAction::Finish { write_pos: 12, produced: 12 });
}

#[test]
fn fill_full_ring_at_end_of_range_finishes() {
    let mut tl = timeline_with(&[]);
    tl.write_pos_frames = u64::MAX - 1;
    let (_, a) = FillSession::start(&tl, 100, true, 48_000);
    assert_eq!(a, FillAction::Finish { write_pos: u64::MAX - 1, produced: 0 });
}

#[test]
fn fill_seeks_decoder_to_source_position() {
    let tl = timeline_with(&[(1_000, 96_000, "a.wav")]);
    let mut t2 = tl;
    t2.write_pos_frames = 49_000;
    let (mut s, a) = FillSession::start(&t2, 100, false, 48_000);
    assert_eq!(a, FillAction::OpenDecoder { clip_start: 1_000 });
    let a = s.step(&t2, FillEvent::DecoderReady { src_sr: 44_100, src_pos: 0 });
    assert_eq!(a, FillAction::SeekDecoder { src_sample: 44_100 });
    let a = s.step(&t2, FillEvent::Sought { ok: true });
    assert_eq!(a, FillAction::Decode { frames: 100 });
    let a = s.step(&t2, FillEvent::Wrote { frames: 60, ring_full: false });
    assert_eq!(a, FillAction::OpenDecoder { clip_start: 1_000 });
    let a = s.step(&t2, FillEvent::DecoderReady { src_sr: 44_100, src_pos: 44_155 });
    assert_eq!(a, FillAction::Decode { frames: 40 });
    let a = s.step(&t2, FillEvent::Wrote { frames: 40, ring_full: false });
    assert_eq!(a, FillAction::Finish { write_pos: 49_100, produced: 100 });
}

#[test]
fn fill_seek_failure_drops_decoder() {
    let mut tl = timeline_with(&[(0, 1_000, "a.wav")]);
    tl.write_pos_frames = 10;
    let (mut s, _) = FillSession::start(&tl, 20, false, 48_000);
    let a = s.step(&tl, FillEvent::DecoderReady { src_sr: 48_000, src_pos: 0 });
    assert_eq!(a, FillAction::SeekDecoder { src_sample: 10 });
    let a = s.step(&tl, FillEvent::Sought { ok: false });
    assert_eq!(a, FillAction::DropDecoderAndWriteSilence { frames: 20 });
    let a = s.step(&tl, FillEvent::Wrote { frames: 20, ring_full: false });
    assert_eq!(a, FillAction::Finish { write_pos: 30, produced: 20 });
}

#[test]
fn fill_empty_decode_drops_decoder() {
    let tl = timeline_with(&[(0, 8, "a.wav")]);
    let (mut s, _) = FillSession::start(&tl, 8, false, 48_000);
    let a = s.step(&tl, FillEvent::DecoderReady { src_sr: 48_000, src_pos: 0 });
    assert_eq!(a, FillAction::Decode { frames: 8 });
    let a = s.step(&tl, FillEvent::Wrote { frames: 0, ring_full: false });
    assert_eq!(a, FillAction::DropDecoderAndWriteSilence { frames: 8 });
}

#[test]
fn fill_unexpected_event_ends_fill() {
    let tl = timeline_with(&[]);
    let (mut s, _) = FillSession::start(&tl, 5, false, 48_000);
    let a = s.step(&tl, FillEvent::DecoderFailed);
    assert_eq!(a, FillAction::Finish { write_pos: 0, produced: 0 });
}

#[test]
fn source_sample_values() {
    assert_eq!(source_sample(48_000, 44_100, 48_000), 44_100);
    assert_eq!(source_sample(1, 44_100, 48_000), 0);
    assert_eq!(source_sample(100, 48_000, 0), u64::MAX);
    assert_eq!(source_sample(0, 48_000, 0), 0);
    assert_eq!(source_sample(u64::MAX, u32::MAX, 1), u64::MAX);
    let f = ((12_345u64 as f64) * (44_100f64) / 48_000f64).floor() as u64;
    assert_eq!(source_sample(12_345, 44_100, 48_000), f);
}

#[test]
fn decoder_fits_same_file_and_rate() {
    let c = Clip { file_path: "a.wav".to_string(), src_sr: 44_100, tl_start: 0, tl_len: 1 };
    assert!(decoder_fits(&"a.wav".to_string(), 44_100, &c));
    assert!(!decoder_fits(&"b.wav".to_string(), 44_100, &c));
    assert!(!decoder_fits(&"a.wav".to_string(), 48_000, &c));
}
