//! Shared device and sample-format types.

use vstd::prelude::*;

verus! {

/// Backend-wide unique device identifier. A plain UTF-8 string, so that
/// WASAPI endpoint ids, CoreAudio object ids and PipeWire node ids all fit.
#[derive(Debug, Clone, Hash)]
pub struct DeviceId(pub String);

impl View for DeviceId {
    type V = Seq<char>;

    open spec fn view(&self) -> Seq<char> {
        self.0@
    }
}

impl DeviceId {
    /// Builds an identifier from a string slice.
    pub fn from_str(s: &str) -> (r: DeviceId)
        ensures
            r@ == s@,
    {
        DeviceId(s.to_owned())
    }

    /// Builds an identifier that owns the given string.
    pub fn from_string(s: String) -> (r: DeviceId)
        ensures
            r@ == s@,
    {
        DeviceId(s)
    }

    /// A copy of this identifier with the same text.
    pub fn to_owned_id(&self) -> (r: DeviceId)
        ensures
            r@ == self@,
    {
        DeviceId(self.0.clone())
    }

    /// Whether two identifiers hold the same text.
    pub fn same_as(&self, other: &DeviceId) -> (r: bool)
        ensures
            r == (self@ == other@),
    {
        self.0 == other.0
    }

    /// The identifier's text (what `Display` prints in the application).
    pub fn to_text(&self) -> (r: String)
        ensures
            r@ == self@,
    {
        self.0.clone()
    }
}

/// Physical transport of a device.
#[derive(Debug, Clone, Copy, PartialEq, Eq, Structural)]
pub enum DeviceKind {
    /// A cable or a built-in speaker.
    Wired,
    /// Bluetooth (A2DP or LE Audio).
    Bluetooth,
    /// A virtual or loopback device.
    Virtual,
    /// A network client.
    Network,
    /// The backend could not tell.
    Unknown,
}

/// What a backend reports about one device.
#[derive(Debug, Clone)]
pub struct DeviceInfo {
    pub id: DeviceId,
    /// Human-readable name, as the operating system shows it.
    pub name: String,
    pub kind: DeviceKind,
    /// Sample rate the device uses now.
    pub sample_rate: u32,
    pub channels: u16,
    /// Whether this is the system default device.
    pub is_default: bool,
    /// Stable backend id (WASAPI endpoint id, CoreAudio object id), when
    /// the backend can tell it.
    pub endpoint_id: Option<String>,
}

/// Sample formats that the capture and output paths meet.
#[derive(Debug, Clone, Copy, PartialEq, Eq, Structural)]
pub enum SampleFormat {
    F32,
    I16,
    I32,
    U16,
}

/// Size of one sample of the format, in bytes.
pub open spec fn sample_bytes(f: SampleFormat) -> nat {
    match f {
        SampleFormat::F32 | SampleFormat::I32 => 4,
        SampleFormat::I16 | SampleFormat::U16 => 2,
    }
}

impl SampleFormat {
    /// Size of one sample, in bytes.
    pub fn bytes(self) -> (r: usize)
        ensures
            r == sample_bytes(self),
    {
        match self {
            SampleFormat::F32 | SampleFormat::I32 => 4,
            SampleFormat::I16 | SampleFormat::U16 => 2,
        }
    }
}

/// Errors of the audio core.
#[derive(Debug)]
pub enum Error {
    /// Failure reported by an audio backend.
    Backend(String),
    /// No device of that name or id.
    DeviceNotFound(String),
    /// The device's sample format is not supported.
    UnsupportedFormat(SampleFormat),
    /// A ring buffer overflowed.
    Overrun,
    /// A ring buffer ran dry.
    Underrun,
    /// Any other failure, with its message.
    Other(String),
}

/// Name of a sample format, as `Debug` prints it.
pub open spec fn sample_format_name(f: SampleFormat) -> Seq<char> {
    match f {
        SampleFormat::F32 => "F32"@,
        SampleFormat::I16 => "I16"@,
        SampleFormat::I32 => "I32"@,
        SampleFormat::U16 => "U16"@,
    }
}

impl SampleFormat {
    /// Name of the format, as `Debug` prints it.
    pub fn name(self) -> (r: String)
        ensures
            r@ == sample_format_name(self),
    {
        match self {
            SampleFormat::F32 => "F32".to_owned(),
            SampleFormat::I16 => "I16".to_owned(),
            SampleFormat::I32 => "I32".to_owned(),
            SampleFormat::U16 => "U16".to_owned(),
        }
    }
}

/// The text of an error, as it is displayed.
pub open spec fn error_text(e: Error) -> Seq<char> {
    match e {
        Error::Backend(m) => "audio backend: "@ + m@,
        Error::DeviceNotFound(m) => "device not found: "@ + m@,
        Error::UnsupportedFormat(f) => "unsupported sample format: "@ + sample_format_name(f),
        Error::Overrun => "buffer overrun"@,
        Error::Underrun => "buffer underrun"@,
        Error::Other(m) => m@,
    }
}

impl Error {
    /// The text of the error, as it is displayed.
    pub fn message(&self) -> (r: String)
        ensures
            r@ == error_text(*self),
    {
        match self {
            Error::Backend(m) => {
                let mut out = "audio backend: ".to_owned();
                out.append(m.as_str());
                out
            },
            Error::DeviceNotFound(m) => {
                let mut out = "device not found: ".to_owned();
                out.append(m.as_str());
                out
            },
            Error::UnsupportedFormat(f) => {
                let mut out = "unsupported sample format: ".to_owned();
                let n = f.name();
                out.append(n.as_str());
                out
            },
            Error::Overrun => "buffer overrun".to_owned(),
            Error::Underrun => "buffer underrun".to_owned(),
            Error::Other(m) => m.clone(),
        }
    }
}

} // verus!
