# ryuichi

The verified core of a small multitrack audio engine that a C++ host drives
through C entry points.

- `src/` is the library, proved with Verus:
  - `unit` — ring sizes, watermarks, frames-to-samples conversion;
  - `transport` — the play clock (playing flag, playhead, sample rate);
  - `budget` — the global count of decoded frames waiting in the rings,
    the watermark test and the workers' wait decision;
  - `track` — track slots, per-track settings and the real-time parameters
    that mirror them;
  - `timeline` — the clips of each track keyed by start frame, the lookups
    of the clip playing at a frame and of the next clip, and the clip edits;
  - `fill` — the decisions that fill a track's ring from its timeline, as a
    state machine driven step by step by the code that owns the decoder and
    the ring;
  - `scheduling` — how the resampler pulls from the track rings;
  - `control` — the work of the play, stop and seek commands.
- `app/` is the DLL around it: the C entry points, the worker and
  resampler threads, the `rtrb` rings, `symphonia` decoding, the `cpal`
  output, the waveform thumbnail and the log writer.
