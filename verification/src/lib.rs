//! Verified core of the Capto screen recorder: the decision logic behind the
//! control plane, the recording session, the capture geometry and the
//! FFmpeg command lines, each with its contract.

pub mod clock;
pub mod resilience;
pub mod settings;
pub mod std_types;
pub mod text;
pub mod redact;
pub mod encode;
pub mod audio;
pub mod capture;
pub mod envelope;
pub mod flags;
pub mod hotkeys;
pub mod breadcrumbs;
pub mod session;
pub mod table;
pub mod metrics;
pub mod tray;
pub mod ffmpeg_args;
pub mod ipc;
pub mod control;
pub mod overlay;
pub mod cli;
pub mod shortcut;
pub mod paths;
pub mod naming;
pub mod sidecar;
pub mod client;
pub mod pixels;
pub mod webcam;
pub mod outputs;
pub mod desktop;
pub mod imaging;
