//! Settings vocabulary shared by the session, the CLI and the control plane.

use vstd::prelude::*;

verus! {

#[derive(Debug, Clone, Copy, PartialEq, Eq, Structural)]
pub enum OutputFormat {
    Mp4,
    Gif,
    AudioOnly,
}

#[derive(Debug, Clone, Copy, PartialEq, Eq, Structural)]
pub enum VideoSourceKind {
    Display,
    Window,
    Region,
}

/// A screen-space rectangle to record or capture.
#[derive(Debug, Clone, Copy, PartialEq, Eq, Structural)]
pub struct Region {
    pub x: i32,
    pub y: i32,
    pub width: u32,
    pub height: u32,
}

/// The file extension a recording in `format` gets.
pub open spec fn extension_of(format: OutputFormat) -> Seq<char> {
    match format {
        OutputFormat::Mp4 => "mp4"@,
        OutputFormat::Gif => "gif"@,
        OutputFormat::AudioOnly => "m4a"@,
    }
}

pub fn output_extension(format: OutputFormat) -> (r: &'static str)
    ensures
        r@ == extension_of(format),
{
    match format {
        OutputFormat::Mp4 => "mp4",
        OutputFormat::Gif => "gif",
        OutputFormat::AudioOnly => "m4a",
    }
}

} // verus!
