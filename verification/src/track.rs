use vstd::prelude::*;

verus! {

/// Bit pattern of the `f32` value 0.5, a track's initial volume.
pub const DEFAULT_VOLUME_BITS: u32 = 0x3F00_0000;

/// Bit pattern of the `f32` value 0.0, a track's initial pan (centre).
pub const DEFAULT_PAN_BITS: u32 = 0;

/// Bit pattern of the `f32` value 60.0, the initial tempo.
pub const DEFAULT_BPM_BITS: u32 = 0x4270_0000;

/// The four track slots of the engine.
#[derive(Clone, Copy, Debug, PartialEq, Eq)]
pub enum TrackNumber {
    Zero,
    One,
    Two,
    Three,
}

/// The slot that a caller's track number names, if any.
pub open spec fn spec_track_number(number: i32) -> Option<TrackNumber> {
    if number == 0 {
        Some(TrackNumber::Zero)
    } else if number == 1 {
        Some(TrackNumber::One)
    } else if number == 2 {
        Some(TrackNumber::Two)
    } else if number == 3 {
        Some(TrackNumber::Three)
    } else {
        None
    }
}

/// The mixing settings of one track. Volume and pan are `f32` values held by
/// their bit patterns, which is also how the real-time parameters carry them.
#[derive(Clone, Copy, Debug, PartialEq, Eq)]
pub struct TrackConfig {
    pub track_number: TrackNumber,
    pub volume_bits: u32,
    pub muted: bool,
    pub pan_bits: u32,
    pub reverb: bool,
    pub delay: bool,
}

impl TrackConfig {
    /// The settings of a fresh track in slot `number` (0 to 3): volume 0.5,
    /// centred, not muted, no effects. Any other number is refused.
    pub fn new(number: i32) -> (r: Result<TrackConfig, String>)
        ensures
            match spec_track_number(number) {
                Some(n) => r matches Ok(t) && t.track_number == n && t.volume_bits
                    == DEFAULT_VOLUME_BITS && !t.muted && t.pan_bits == DEFAULT_PAN_BITS && !t.reverb
                    && !t.delay,
                None => r matches Err(e) && e@ == "not a valid track number"@,
            },
            r is Ok <==> 0 <= number <= 3,
            number == 0 ==> (r matches Ok(t) && t.track_number == TrackNumber::Zero),
            number == 1 ==> (r matches Ok(t) && t.track_number == TrackNumber::One),
            number == 2 ==> (r matches Ok(t) && t.track_number == TrackNumber::Two),
            number == 3 ==> (r matches Ok(t) && t.track_number == TrackNumber::Three),
    {
        let track_num = match number {
            0 => TrackNumber::Zero,
            1 => TrackNumber::One,
            2 => TrackNumber::Two,
            3 => TrackNumber::Three,
            _ => {
                return Err("not a valid track number".to_string());
            },
        };
        Ok(
            TrackConfig {
                track_number: track_num,
                volume_bits: DEFAULT_VOLUME_BITS,
                muted: false,
                pan_bits: DEFAULT_PAN_BITS,
                reverb: false,
                delay: false,
            },
        )
    }
}

/// The settings that the audio callback reads while it mixes: per track the
/// volume and pan (as `f32` bit patterns) and the mute flag, and the tempo.
pub struct Parameters {
    pub volume: Vec<u32>,
    pub pan: Vec<u32>,
    pub muted: Vec<bool>,
    pub bpm: u32,
}

/// `p` carries, track by track, the volume, pan and mute flag of `tracks`.
pub open spec fn mirrors(p: Parameters, tracks: Seq<TrackConfig>) -> bool {
    &&& p.volume@.len() == tracks.len()
    &&& p.pan@.len() == tracks.len()
    &&& p.muted@.len() == tracks.len()
    &&& forall|i: int|
        0 <= i < tracks.len() ==> p.volume@[i] == (#[trigger] tracks[i]).volume_bits && p.pan@[i]
            == tracks[i].pan_bits && p.muted@[i] == tracks[i].muted
}

impl Parameters {
    /// The parameters of `track`, at the initial tempo of 60.
    pub fn from_tracks(track: &Vec<TrackConfig>) -> (p: Parameters)
        ensures
            mirrors(p, track@),
            p.bpm == DEFAULT_BPM_BITS,
    {
        let mut volume: Vec<u32> = Vec::new();
        let mut pan: Vec<u32> = Vec::new();
        let mut muted: Vec<bool> = Vec::new();
        for i in 0..track.len()
            invariant
                volume@.len() == i,
                pan@.len() == i,
                muted@.len() == i,
                forall|j: int|
                    0 <= j < i ==> volume@[j] == (#[trigger] track@[j]).volume_bits && pan@[j]
                        == track@[j].pan_bits && muted@[j] == track@[j].muted,
        {
            volume.push(track[i].volume_bits);
            pan.push(track[i].pan_bits);
            muted.push(track[i].muted);
        }
        Parameters { volume, pan, muted, bpm: DEFAULT_BPM_BITS }
    }
}

/// The tracks' settings and the real-time parameters derived from them.
pub struct Mixer {
    pub tracks: Vec<TrackConfig>,
    pub params: Parameters,
}

impl Mixer {
    /// As many parameter slots as tracks.
    pub open spec fn wf(self) -> bool {
        &&& self.params.volume@.len() == self.tracks@.len()
        &&& self.params.pan@.len() == self.tracks@.len()
        &&& self.params.muted@.len() == self.tracks@.len()
    }

    /// Every track's volume and mute flag are what the parameters carry.
    pub open spec fn volume_and_mute_mirrored(self) -> bool {
        forall|i: int|
            0 <= i < self.tracks@.len() ==> self.params.volume@[i] == (#[trigger] self.tracks@[i]).volume_bits
                && self.params.muted@[i] == self.tracks@[i].muted
    }

    /// Every track's pan is what the parameters carry.
    pub open spec fn pan_mirrored(self) -> bool {
        forall|i: int|
            0 <= i < self.tracks@.len() ==> self.params.pan@[i] == (#[trigger] self.tracks@[i]).pan_bits
    }

    /// The mixer of `tracks`, with parameters taken from them.
    pub fn new(tracks: Vec<TrackConfig>) -> (m: Mixer)
        ensures
            m.tracks@ == tracks@,
            mirrors(m.params, tracks@),
            m.params.bpm == DEFAULT_BPM_BITS,
            m.wf(),
            m.volume_and_mute_mirrored(),
            m.pan_mirrored(),
    {
        let params = Parameters::from_tracks(&tracks);
        Mixer { tracks, params }
    }

    /// Sets the volume of the track that `number` names to `volume_bits`, the
    /// bit pattern of a volume already held within 0.0 to 1.0, in the track
    /// and in the parameters. Refused for a negative number; a number past the
    /// last track is left out.
    pub fn volume_update(&mut self, volume_bits: u32, number: i32) -> (ok: bool)
        requires
            old(self).wf(),
            number < old(self).tracks@.len(),
        ensures
            ok == (number >= 0),
            final(self).wf(),
            !ok ==> *final(self) == *old(self),
            ok ==> final(self).tracks@ == old(self).tracks@.update(
                number as int,
                TrackConfig { volume_bits, ..old(self).tracks@[number as int] },
            ),
            ok ==> final(self).params.volume@ == old(self).params.volume@.update(number as int, volume_bits),
            final(self).params.pan@ == old(self).params.pan@,
            final(self).params.muted@ == old(self).params.muted@,
            final(self).params.bpm == old(self).params.bpm,
            old(self).volume_and_mute_mirrored() ==> final(self).volume_and_mute_mirrored(),
            old(self).pan_mirrored() ==> final(self).pan_mirrored(),
    {
        if number < 0 {
            return false;
        }
        let idx = number as usize;
        self.tracks[idx].volume_bits = volume_bits;
        self.params.volume.set(idx, volume_bits);
        true
    }

    /// Sets the mute flag of the track that `number` names, in the track and
    /// in the parameters. Refused, and nothing changes, when the number names
    /// no track.
    pub fn mute_update(&mut self, mute: bool, number: i32) -> (ok: bool)
        requires
            old(self).wf(),
        ensures
            ok == (0 <= number < old(self).tracks@.len()),
            final(self).wf(),
            !ok ==> *final(self) == *old(self),
            ok ==> final(self).tracks@ == old(self).tracks@.update(
                number as int,
                TrackConfig { muted: mute, ..old(self).tracks@[number as int] },
            ),
            ok ==> final(self).params.muted@ == old(self).params.muted@.update(number as int, mute),
            final(self).params.volume@ == old(self).params.volume@,
            final(self).params.pan@ == old(self).params.pan@,
            final(self).params.bpm == old(self).params.bpm,
            old(self).volume_and_mute_mirrored() ==> final(self).volume_and_mute_mirrored(),
            old(self).pan_mirrored() ==> final(self).pan_mirrored(),
    {
        if number < 0 {
            return false;
        }
        let idx = number as usize;
        if idx >= self.tracks.len() {
            return false;
        }
        self.tracks[idx].muted = mute;
        self.params.muted.set(idx, mute);
        true
    }

    /// Sets the pan of the track that `number` names: the track keeps
    /// `clamped_bits`, the pan held within -1.0 to 1.0, while the parameters
    /// take `raw_bits`, the pan as the caller gave it. Refused, and nothing
    /// changes, when the number names no track.
    pub fn pan_update(&mut self, clamped_bits: u32, raw_bits: u32, number: i32) -> (ok: bool)
        requires
            old(self).wf(),
        ensures
            ok == (0 <= number < old(self).tracks@.len()),
            final(self).wf(),
            !ok ==> *final(self) == *old(self),
            ok ==> final(self).tracks@ == old(self).tracks@.update(
                number as int,
                TrackConfig { pan_bits: clamped_bits, ..old(self).tracks@[number as int] },
            ),
            ok ==> final(self).params.pan@ == old(self).params.pan@.update(number as int, raw_bits),
            final(self).params.volume@ == old(self).params.volume@,
            final(self).params.muted@ == old(self).params.muted@,
            final(self).params.bpm == old(self).params.bpm,
            old(self).volume_and_mute_mirrored() ==> final(self).volume_and_mute_mirrored(),
            old(self).pan_mirrored() && clamped_bits == raw_bits ==> final(self).pan_mirrored(),
    {
        if number < 0 {
            return false;
        }
        let idx = number as usize;
        if idx >= self.tracks.len() {
            return false;
        }
        self.tracks[idx].pan_bits = clamped_bits;
        self.params.pan.set(idx, raw_bits);
        true
    }

    /// Sets the tempo to `bpm_bits`, the bit pattern of a tempo already held
    /// within 20 to 300.
    pub fn bpm_update(&mut self, bpm_bits: u32) -> (ok: bool)
        requires
            old(self).wf(),
        ensures
            ok,
            final(self).wf(),
            final(self).params.bpm == bpm_bits,
            final(self).tracks@ == old(self).tracks@,
            final(self).params.volume@ == old(self).params.volume@,
            final(self).params.pan@ == old(self).params.pan@,
            final(self).params.muted@ == old(self).params.muted@,
    {
        self.params.bpm = bpm_bits;
        true
    }
}

} // verus!
