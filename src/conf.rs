//! Settings of the service that the core reads as plain values.

use vstd::prelude::*;

verus! {

pub struct General {
    /// Seconds between two sweeps of stale state.
    pub vacuum_interval: i64,
}

/// Bitrate limits, in bits per second, applied to publishers.
pub struct WriterConstraint {
    pub default_video_bitrate: u32,
    pub max_video_remb: u32,
    pub audio_bitrate: u32,
}

pub struct Constraint {
    pub writer: WriterConstraint,
}

/// The names of the storage backends that recordings may be uploaded to.
pub struct UploadConfig {
    pub backends: Vec<String>,
}

} // verus!
