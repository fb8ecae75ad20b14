//! Plain records that the command layer exchanges with the front end,
//! and the backend interface.

use vstd::prelude::*;
use crate::core_types::{DeviceInfo, Error};
use crate::sync::{DriftSnapshot, DRIFT_THRESHOLD_MS};

verus! {

/// State of the engine for the UI.
#[derive(Debug, Clone)]
pub struct EngineStatus {
    pub running: bool,
    pub loopback_source: Option<String>,
    /// `false` once the audio thread has died; the UI asks for a restart.
    pub alive: bool,
}

/// Events from the audio thread that the UI polls.
#[derive(Debug, Clone)]
pub enum EngineEventDto {
    OutputDisconnected { id: String, reason: String },
    EnginePanicked { message: String },
    DefaultDeviceChanged { new_endpoint_id: Option<String> },
}

/// Result of adding an output.
#[derive(Debug, Clone)]
pub struct AddOutputResultDto {
    pub id: String,
    pub endpoint_id: Option<String>,
}

/// Drift indicator for the UI.
#[derive(Debug, Clone, Copy)]
pub struct SyncStatusDto {
    pub in_sync: bool,
    pub drift_ms: u32,
    pub active_count: u32,
}

/// The UI's drift indicator for a snapshot.
pub fn sync_status(snap: DriftSnapshot) -> (r: SyncStatusDto)
    ensures
        r.in_sync == snap.in_sync,
        r.drift_ms == snap.drift_ms,
        r.active_count == snap.active_count,
{
    SyncStatusDto { in_sync: snap.in_sync, drift_ms: snap.drift_ms, active_count: snap.active_count }
}

/// Options of an output stream.
#[derive(Debug, Clone, Copy)]
pub struct OutputOpts {
    /// Ring-buffer capacity, in interleaved samples.
    pub buffer_samples: usize,
    /// Silence pushed before playback starts, in samples.
    pub prefill_silence_samples: usize,
}

impl OutputOpts {
    /// 96 000 samples of buffer, no prefill.
    pub fn default() -> (r: Self)
        ensures
            r.buffer_samples == 96_000,
            r.prefill_silence_samples == 0,
    {
        OutputOpts { buffer_samples: 96_000, prefill_silence_samples: 0 }
    }
}

/// Options of loopback capture.
#[derive(Debug, Clone, Copy)]
pub struct CaptureOpts {
    /// Ring-buffer capacity, in interleaved samples: about four times
    /// 250 ms of 48 kHz stereo.
    pub buffer_samples: usize,
}

impl CaptureOpts {
    /// 96 000 samples of buffer.
    pub fn default() -> (r: Self)
        ensures
            r.buffer_samples == 96_000,
    {
        CaptureOpts { buffer_samples: 96_000 }
    }
}

/// An audio platform backend: lists the system's devices.
///
/// Implementations must be `Send + Sync`: the engine keeps one and uses it
/// from several threads. Listing can be slow, so the UI asks only on
/// explicit events and on a periodic refresh.
pub trait AudioBackend: Send + Sync {
    /// Backend name for logs and the UI.
    fn name(&self) -> &'static str;

    /// Output devices (speakers, headphones, HDMI), the default among them.
    fn enumerate_outputs(&self) -> Result<Vec<DeviceInfo>, Error>;

    /// Input devices (microphones, line-in, loopback sources).
    fn enumerate_inputs(&self) -> Result<Vec<DeviceInfo>, Error>;

    /// The system's default output device.
    fn default_output(&self) -> Result<DeviceInfo, Error>;
}

} // verus!
