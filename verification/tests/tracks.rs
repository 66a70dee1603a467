use ryuichi::track::{
    Mixer, Parameters, TrackConfig, TrackNumber, DEFAULT_BPM_BITS, DEFAULT_PAN_BITS,
    DEFAULT_VOLUME_BITS,
};

fn four_tracks() -> Vec<TrackConfig> {
    (0..4).map(|n| TrackConfig::new(n).unwrap()).collect()
}

#[test]
fn track_config_defaults() {
    let t = TrackConfig::new(2).unwrap();
    assert_eq!(t.track_number, TrackNumber::Two);
    assert_eq!(f32::from_bits(t.volume_bits), 0.5);
    assert_eq!(f32::from_bits(t.pan_bits), 0.0);
    assert!(!t.muted && !t.reverb && !t.delay);
    assert_eq!(TrackConfig::new(0).unwrap().track_number, TrackNumber::Zero);
    assert_eq!(TrackConfig::new(3).unwrap().track_number, TrackNumber::Three);
}

#[test]
fn track_config_rejects_other_numbers() {
    assert_eq!(TrackConfig::new(4).unwrap_err(), "not a valid track number");
    assert_eq!(TrackConfig::new(-1).unwrap_err(), "not a valid track number");
}

#[test]
fn parameters_copy_the_tracks() {
    let mut tracks = four_tracks();
    tracks[1].muted = true;
    tracks[3].pan_bits = (-0.25f32).to_bits();
    let p = Parameters::from_tracks(&tracks);
    assert_eq!(p.volume, vec![DEFAULT_VOLUME_BITS; 4]);
    assert_eq!(p.muted, vec![false, true, false, false]);
    assert_eq!(p.pan[3], (-0.25f32).to_bits());
    assert_eq!(p.pan[0], DEFAULT_PAN_BITS);
    assert_eq!(f32::from_bits(p.bpm), 60.0);
    assert_eq!(p.bpm, DEFAULT_BPM_BITS);
}

#[test]
fn volume_update_sets_track_and_parameters() {
    let mut m = Mixer::new(four_tracks());
    let bits = 0.8f32.to_bits();
    assert!(m.volume_update(bits, 1));
    assert_eq!(m.tracks[1].volume_bits, bits);
    assert_eq!(m.params.volume[1], bits);
    assert_eq!(m.params.volume[0], DEFAULT_VOLUME_BITS);
}

#[test]
fn volume_update_refuses_negative_numbers() {
    let mut m = Mixer::new(four_tracks());
    assert!(!m.volume_update(0.1f32.to_bits(), -1));
    assert_eq!(m.params.volume, vec![DEFAULT_VOLUME_BITS; 4]);
}

#[test]
fn mute_update() {
    let mut m = Mixer::new(four_tracks());
    assert!(m.mute_update(true, 3));
    assert!(m.tracks[3].muted);
    assert!(m.params.muted[3]);
    assert!(!m.mute_update(true, 4));
    assert!(!m.mute_update(true, -2));
    assert_eq!(m.params.muted, vec![false, false, false, true]);
}

#[test]
fn pan_update_keeps_clamped_and_sends_raw() {
    let mut m = Mixer::new(four_tracks());
    let raw = 1.5f32;
    let clamped = raw.clamp(-1.0, 1.0);
    assert!(m.pan_update(clamped.to_bits(), raw.to_bits(), 0));
    assert_eq!(f32::from_bits(m.tracks[0].pan_bits), 1.0);
    assert_eq!(f32::from_bits(m.params.pan[0]), 1.5);
    assert!(!m.pan_update(0, 0, 9));
}

#[test]
fn bpm_update() {
    let mut m = Mixer::new(four_tracks());
    assert!(m.bpm_update(120.0f32.to_bits()));
    assert_eq!(f32::from_bits(m.params.bpm), 120.0);
}

#[test]
fn parameters_mirror_tracks_after_updates() {
    let mut m = Mixer::new(four_tracks());
    m.volume_update(0.3f32.to_bits(), 2);
    m.mute_update(true, 0);
    m.pan_update((-0.5f32).to_bits(), (-0.5f32).to_bits(), 1);
    for i in 0..4 {
        assert_eq!(m.params.volume[i], m.tracks[i].volume_bits);
        assert_eq!(m.params.muted[i], m.tracks[i].muted);
        assert_eq!(m.params.pan[i], m.tracks[i].pan_bits);
    }
}
