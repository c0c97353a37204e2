//! A small sample-player library: a playback engine that prepares an audio
//! file off the control path (decode, channel adaptation, resampling), hands
//! the finished buffer over through a shared playback state, and streams it
//! to an output device through a non-blocking render step; plus the directory
//! listing rules of the accompanying sample browser.
//!
//! Device samples are carried throughout as opaque 32-bit words (the device's
//! native 32-bit sample encoding); the all-zero word is silence. The library
//! copies and routes samples without interpreting their numeric value, so the
//! contracts here pin down exactly which words end up where.

pub mod errors;
pub mod pipeline;
pub mod resample;
pub mod shared;
pub mod engine;
pub mod text;
pub mod listing;
pub mod browser;

pub use browser::BrowserPanel;
pub use browser::SampleBrowser;
pub use engine::PendingLoad;
pub use engine::PlaybackEngine;
pub use engine::PlaybackStatus;
pub use engine::PollEvent;
pub use errors::BrowserError;
pub use errors::PlaybackError;
pub use errors::ScanError;
pub use listing::DirListing;
pub use listing::FileEntry;
pub use listing::RawEntry;
pub use listing::ScanResult;
pub use pipeline::begin_prepare;
pub use pipeline::finish_prepare;
pub use pipeline::DecodedAudio;
pub use pipeline::PreparedAudio;
pub use pipeline::PrepareStep;
pub use pipeline::ResampleJob;
pub use resample::chunk_plan;
pub use resample::merge_channels;
pub use resample::resample_chunk_size;
pub use resample::split_channels;
pub use shared::SharedPlaybackState;
