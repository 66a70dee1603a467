//! Verified core of the Ryuichi audio engine: the transport clock, the frame
//! budget shared by the decoding workers, track settings and their real-time
//! mirror, the clip timeline of every track, and the decisions that fill a
//! track's ring from its timeline.

pub mod unit;
pub mod transport;
pub mod budget;
pub mod timeline;
pub mod fill;
pub mod track;
pub mod scheduling;
pub mod control;
