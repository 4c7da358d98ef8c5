//! Verified core of a soundboard: Ogg Opus stream recognition and demuxing,
//! the microphone ring buffer and controls, the audio engine's device and
//! playback bookkeeping, and the persisted sound list.

pub mod ogg_opus;
pub mod config;
pub mod engine;
pub mod mic;
