//! Zound: the verified core of a multi-device audio hub.
//!
//! The library holds the parts of the hub that decide and compute on
//! plain values: device descriptions, the latency alignment of the sync
//! engine, the per-device output state, the sample-buffer bookkeeping of
//! the audio worker, the structured command errors and the command-line
//! and alias parsing. Audio I/O, threads and floating-point DSP live in
//! the application around it.

pub mod core_types;
pub mod text;
pub mod guard;
pub mod table;
pub mod sync;
pub mod output;
pub mod pipeline;
pub mod calibration;
pub mod devices;
pub mod cli;
pub mod test_signal;
pub mod engine;
pub mod worker;
pub mod dto;
pub mod profile;
pub mod i18n;

use vstd::prelude::*;

verus! {

/// Default internal sample rate. All streams are resampled to it.
pub const DEFAULT_SAMPLE_RATE: u32 = 48_000;

/// Default channel count (stereo).
pub const DEFAULT_CHANNELS: u16 = 2;

} // verus!
