use vstd::prelude::*;

verus! {

/// Why a playback request could not be carried out.
///
/// `DecodeFailure` covers an unreadable or unsupported file, a missing audio
/// track, an unknown sample rate, and a decode that extracted zero samples.
/// `ResampleFailure` covers sample-rate-conversion setup or processing
/// failures. `DeviceFailure` is fatal at engine construction (no output
/// device, unsupported configuration). `WorkerTerminated` reports a
/// preparation worker that went away without delivering a result.
#[derive(Debug, Clone, PartialEq)]
pub enum PlaybackError {
    DecodeFailure(String),
    ResampleFailure(String),
    DeviceFailure(String),
    WorkerTerminated,
}

impl PlaybackError {
    /// The text of [`Self::message`], at the specification level.
    pub open spec fn message_spec(&self) -> Seq<char> {
        match self {
            PlaybackError::DecodeFailure(d) => "decode error: "@ + d@,
            PlaybackError::ResampleFailure(d) => "resample error: "@ + d@,
            PlaybackError::DeviceFailure(d) => "device error: "@ + d@,
            PlaybackError::WorkerTerminated => "worker terminated unexpectedly"@,
        }
    }

    /// A human-readable description of the error, for display.
    pub fn message(&self) -> (m: String)
        ensures
            m@ == self.message_spec(),
    {
        match self {
            PlaybackError::DecodeFailure(d) => {
                String::from_str("decode error: ").concat(d.as_str())
            },
            PlaybackError::ResampleFailure(d) => {
                String::from_str("resample error: ").concat(d.as_str())
            },
            PlaybackError::DeviceFailure(d) => {
                String::from_str("device error: ").concat(d.as_str())
            },
            PlaybackError::WorkerTerminated => {
                String::from_str("worker terminated unexpectedly")
            },
        }
    }
}

/// Why a directory could not be read.
#[derive(Debug, Clone, PartialEq)]
pub enum ScanError {
    /// The underlying read failed; the payload is the I/O error's text.
    Io(String),
    /// The given path does not name a directory.
    NotADirectory,
}

impl ScanError {
    /// The text of [`Self::message`], at the specification level.
    pub open spec fn message_spec(&self) -> Seq<char> {
        match self {
            ScanError::Io(d) => "I/O error: "@ + d@,
            ScanError::NotADirectory => "path is not a directory"@,
        }
    }

    /// A human-readable description of the error, for display.
    pub fn message(&self) -> (m: String)
        ensures
            m@ == self.message_spec(),
    {
        match self {
            ScanError::Io(d) => String::from_str("I/O error: ").concat(d.as_str()),
            ScanError::NotADirectory => String::from_str("path is not a directory"),
        }
    }
}

/// Why a browser operation could not be carried out.
#[derive(Debug, Clone, PartialEq)]
pub enum BrowserError {
    Scan(ScanError),
    Playback(PlaybackError),
    NoSelection,
}

impl BrowserError {
    /// The text of [`Self::message`], at the specification level.
    pub open spec fn message_spec(&self) -> Seq<char> {
        match self {
            BrowserError::Scan(e) => "scan error: "@ + e.message_spec(),
            BrowserError::Playback(e) => "playback error: "@ + e.message_spec(),
            BrowserError::NoSelection => "no file selected"@,
        }
    }

    /// A human-readable description of the error, for display.
    pub fn message(&self) -> (m: String)
        ensures
            m@ == self.message_spec(),
    {
        match self {
            BrowserError::Scan(e) => {
                String::from_str("scan error: ").concat(e.message().as_str())
            },
            BrowserError::Playback(e) => {
                String::from_str("playback error: ").concat(e.message().as_str())
            },
            BrowserError::NoSelection => String::from_str("no file selected"),
        }
    }
}

} // verus!
