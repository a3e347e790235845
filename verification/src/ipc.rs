//! The control plane's wire vocabulary: request bodies, replies and the
//! lock file through which the CLI finds the running desktop. The JSON
//! forms (camelCase field names) are given to these types where they are
//! serialised; here they are plain data with their defaults.

use vstd::prelude::*;
use crate::encode::VideoEncoderKind;
use crate::settings::{OutputFormat, Region, VideoSourceKind};

verus! {

/// Version of the lock file layout written by the desktop.
pub const LOCK_VERSION: u32 = 1;

/// Body of a request to start recording; every field but the source falls
/// back to the saved settings when absent.
#[derive(Debug)]
pub struct RecordStartRequest {
    pub source: VideoSourceKind,
    pub display_id: Option<u32>,
    pub window_id: Option<u32>,
    pub region: Option<Region>,
    pub include_cursor: Option<bool>,
    pub mic_device: Option<String>,
    pub loopback_device: Option<String>,
    pub mic_volume: Option<u8>,
    pub loopback_volume: Option<u8>,
    pub encoder: Option<VideoEncoderKind>,
    pub format: Option<OutputFormat>,
    pub fps: Option<u32>,
    pub quality: Option<u8>,
}

impl Default for RecordStartRequest {
    /// Record the display with every other choice left to the settings.
    fn default() -> (r: Self)
        ensures
            r.source == VideoSourceKind::Display,
            r.display_id is None,
            r.window_id is None,
            r.region is None,
            r.include_cursor is None,
            r.mic_device is None,
            r.loopback_device is None,
            r.mic_volume is None,
            r.loopback_volume is None,
            r.encoder is None,
            r.format is None,
            r.fps is None,
            r.quality is None,
    {
        RecordStartRequest {
            source: VideoSourceKind::Display,
            display_id: None,
            window_id: None,
            region: None,
            include_cursor: None,
            mic_device: None,
            loopback_device: None,
            mic_volume: None,
            loopback_volume: None,
            encoder: None,
            format: None,
            fps: None,
            quality: None,
        }
    }
}

/// Body of a screenshot request.
#[derive(Debug, Clone, Copy, PartialEq, Eq, Structural)]
pub struct ShotRequest {
    pub source: VideoSourceKind,
    pub display_id: Option<u32>,
    pub window_id: Option<u32>,
    pub region: Option<Region>,
}

impl Default for ShotRequest {
    /// A screenshot of the display, nothing else named.
    fn default() -> (r: Self)
        ensures
            r == (ShotRequest {
                source: VideoSourceKind::Display,
                display_id: None,
                window_id: None,
                region: None,
            }),
    {
        ShotRequest { source: VideoSourceKind::Display, display_id: None, window_id: None, region: None }
    }
}

/// Where the settings file lives.
#[derive(Debug)]
pub struct ConfigPathInfo {
    pub path: String,
}

/// One recording or screenshot in the output folder.
#[derive(Debug)]
pub struct OutputEntry {
    pub path: String,
    pub name: String,
    pub bytes: u64,
    pub modified_ms: u64,
}

/// The most recent outputs, newest first.
#[derive(Debug)]
pub struct OutputsList {
    pub output_dir: String,
    pub items: Vec<OutputEntry>,
}

/// Body of a request to open an output.
#[derive(Debug)]
pub struct OpenOutputsRequest {
    /// Absolute path to open. If omitted and `last` is true, open newest output.
    pub path: Option<String>,
    /// Open the output folder instead of a file.
    pub folder: bool,
    /// Open the most recent file under the output folder.
    pub last: bool,
}

/// What `doctor` reports about the running desktop.
#[derive(Debug)]
pub struct DoctorInfo {
    pub os: String,
    pub capture_backend: String,
    pub ffmpeg_path: Option<String>,
    pub ffmpeg_ok: bool,
    pub control_plane: bool,
    pub pid: u32,
    pub port: u16,
    pub preferred_encoder: Option<String>,
}

/// The lock file the desktop writes while its control plane listens.
#[derive(Debug)]
pub struct ServerLock {
    pub pid: u32,
    pub port: u16,
    pub token: String,
    pub version: u32,
}

} // verus!
