//! The command-line vocabulary: how the CLI's words name sources, formats,
//! encoders and capture targets.

use vstd::prelude::*;
use crate::capture::CaptureTarget;
use crate::encode::VideoEncoderKind;
use crate::settings::{OutputFormat, Region, VideoSourceKind};
use crate::text::{chars_of, extend_str, same_chars, string_from};

verus! {

/// The error of an unknown word: `"<what>: <word>"`.
pub open spec fn unknown(what: Seq<char>, word: Seq<char>) -> Seq<char> {
    what + ": "@ + word
}

fn unknown_message(what: &str, word: &str) -> (r: String)
    ensures
        r@ == unknown(what@, word@),
{
    let mut out = chars_of(what);
    extend_str(&mut out, ": ");
    extend_str(&mut out, word);
    proof {
        assert(out@ =~= unknown(what@, word@));
    }
    string_from(out.as_slice())
}

fn word_is(w: &Vec<char>, lit: &str) -> (r: bool)
    ensures
        r == (w@ == lit@),
{
    let l = chars_of(lit);
    same_chars(w.as_slice(), l.as_slice())
}

/// The source a CLI word names.
pub open spec fn source_named(s: Seq<char>) -> Option<VideoSourceKind> {
    if s == "display"@ || s == "screen"@ {
        Some(VideoSourceKind::Display)
    } else if s == "window"@ {
        Some(VideoSourceKind::Window)
    } else if s == "region"@ {
        Some(VideoSourceKind::Region)
    } else {
        None
    }
}

/// The result of parsing, its error as text.
pub open spec fn parsed<T>(r: Result<T, String>) -> Result<T, Seq<char>> {
    match r {
        Ok(v) => Ok(v),
        Err(e) => Err(e@),
    }
}

pub fn parse_source(s: &str) -> (r: Result<VideoSourceKind, String>)
    ensures
        parsed(r) == match source_named(s@) {
            Some(k) => Ok::<VideoSourceKind, Seq<char>>(k),
            None => Err(unknown("unknown source"@, s@)),
        },
{
    let w = chars_of(s);
    if word_is(&w, "display") || word_is(&w, "screen") {
        Ok(VideoSourceKind::Display)
    } else if word_is(&w, "window") {
        Ok(VideoSourceKind::Window)
    } else if word_is(&w, "region") {
        Ok(VideoSourceKind::Region)
    } else {
        Err(unknown_message("unknown source", s))
    }
}

/// The output format a CLI word names.
pub open spec fn format_named(s: Seq<char>) -> Option<OutputFormat> {
    if s == "mp4"@ {
        Some(OutputFormat::Mp4)
    } else if s == "gif"@ {
        Some(OutputFormat::Gif)
    } else if s == "audio"@ || s == "m4a"@ {
        Some(OutputFormat::AudioOnly)
    } else {
        None
    }
}

pub fn parse_format(s: &str) -> (r: Result<OutputFormat, String>)
    ensures
        parsed(r) == match format_named(s@) {
            Some(f) => Ok::<OutputFormat, Seq<char>>(f),
            None => Err(unknown("unknown format"@, s@)),
        },
{
    let w = chars_of(s);
    if word_is(&w, "mp4") {
        Ok(OutputFormat::Mp4)
    } else if word_is(&w, "gif") {
        Ok(OutputFormat::Gif)
    } else if word_is(&w, "audio") || word_is(&w, "m4a") {
        Ok(OutputFormat::AudioOnly)
    } else {
        Err(unknown_message("unknown format", s))
    }
}

/// The encoder a CLI word names: its FFmpeg name or a short alias.
pub open spec fn encoder_named(s: Seq<char>) -> Option<VideoEncoderKind> {
    if s == "h264_nvenc"@ || s == "nvenc"@ {
        Some(VideoEncoderKind::H264Nvenc)
    } else if s == "h264_qsv"@ || s == "qsv"@ {
        Some(VideoEncoderKind::H264Qsv)
    } else if s == "h264_amf"@ || s == "amf"@ {
        Some(VideoEncoderKind::H264Amf)
    } else if s == "libx264"@ || s == "x264"@ {
        Some(VideoEncoderKind::Libx264)
    } else if s == "hevc_nvenc"@ {
        Some(VideoEncoderKind::HevcNvenc)
    } else if s == "hevc_qsv"@ {
        Some(VideoEncoderKind::HevcQsv)
    } else if s == "hevc_amf"@ {
        Some(VideoEncoderKind::HevcAmf)
    } else if s == "libx265"@ || s == "x265"@ {
        Some(VideoEncoderKind::Libx265)
    } else if s == "gif"@ {
        Some(VideoEncoderKind::Gif)
    } else {
        None
    }
}

pub fn parse_encoder(s: &str) -> (r: Result<VideoEncoderKind, String>)
    ensures
        parsed(r) == match encoder_named(s@) {
            Some(k) => Ok::<VideoEncoderKind, Seq<char>>(k),
            None => Err(unknown("unknown encoder"@, s@)),
        },
{
    let w = chars_of(s);
    if word_is(&w, "h264_nvenc") || word_is(&w, "nvenc") {
        Ok(VideoEncoderKind::H264Nvenc)
    } else if word_is(&w, "h264_qsv") || word_is(&w, "qsv") {
        Ok(VideoEncoderKind::H264Qsv)
    } else if word_is(&w, "h264_amf") || word_is(&w, "amf") {
        Ok(VideoEncoderKind::H264Amf)
    } else if word_is(&w, "libx264") || word_is(&w, "x264") {
        Ok(VideoEncoderKind::Libx264)
    } else if word_is(&w, "hevc_nvenc") {
        Ok(VideoEncoderKind::HevcNvenc)
    } else if word_is(&w, "hevc_qsv") {
        Ok(VideoEncoderKind::HevcQsv)
    } else if word_is(&w, "hevc_amf") {
        Ok(VideoEncoderKind::HevcAmf)
    } else if word_is(&w, "libx265") || word_is(&w, "x265") {
        Ok(VideoEncoderKind::Libx265)
    } else if word_is(&w, "gif") {
        Ok(VideoEncoderKind::Gif)
    } else {
        Err(unknown_message("unknown encoder", s))
    }
}

/// The capture target the CLI's flags name; a missing flag the source
/// needs is reported as `--<flag> required`, the first missing one in the
/// order x, y, width, height.
pub open spec fn target_named(
    source: Seq<char>,
    display: Option<u32>,
    window: Option<u32>,
    x: Option<i32>,
    y: Option<i32>,
    width: Option<u32>,
    height: Option<u32>,
) -> Result<CaptureTarget, Seq<char>> {
    if source == "display"@ || source == "screen"@ {
        Ok(CaptureTarget::Display { id: if display is Some { display->0 } else { 0 } })
    } else if source == "window"@ {
        match window {
            Some(id) => Ok(CaptureTarget::Window { id }),
            None => Err("--window required"@),
        }
    } else if source == "region"@ {
        if x is None {
            Err("--x required"@)
        } else if y is None {
            Err("--y required"@)
        } else if width is None {
            Err("--width required"@)
        } else if height is None {
            Err("--height required"@)
        } else {
            Ok(CaptureTarget::Region { x: x->0, y: y->0, width: width->0, height: height->0 })
        }
    } else {
        Err(unknown("unknown source"@, source))
    }
}

pub fn parse_target(
    source: &str,
    display: Option<u32>,
    window: Option<u32>,
    x: Option<i32>,
    y: Option<i32>,
    width: Option<u32>,
    height: Option<u32>,
) -> (r: Result<CaptureTarget, String>)
    ensures
        parsed(r) == target_named(source@, display, window, x, y, width, height),
{
    let w = chars_of(source);
    if word_is(&w, "display") || word_is(&w, "screen") {
        Ok(
            CaptureTarget::Display {
                id: match display {
                    Some(d) => d,
                    None => 0,
                },
            },
        )
    } else if word_is(&w, "window") {
        match window {
            Some(id) => Ok(CaptureTarget::Window { id }),
            None => Err(crate::text::owned("--window required")),
        }
    } else if word_is(&w, "region") {
        match (x, y, width, height) {
            (Some(rx), Some(ry), Some(rw), Some(rh)) => Ok(
                CaptureTarget::Region { x: rx, y: ry, width: rw, height: rh },
            ),
            _ => {
                if x.is_none() {
                    Err(crate::text::owned("--x required"))
                } else if y.is_none() {
                    Err(crate::text::owned("--y required"))
                } else if width.is_none() {
                    Err(crate::text::owned("--width required"))
                } else {
                    Err(crate::text::owned("--height required"))
                }
            },
        }
    } else {
        Err(unknown_message("unknown source", source))
    }
}

/// The region the CLI's flags give: all four of x, y, width and height, or
/// none.
pub fn region_from_flags(x: Option<i32>, y: Option<i32>, width: Option<u32>, height: Option<u32>) -> (r: Option<Region>)
    ensures
        r == (if x is Some && y is Some && width is Some && height is Some {
            Some(Region { x: x->0, y: y->0, width: width->0, height: height->0 })
        } else {
            None
        }),
{
    match (x, y, width, height) {
        (Some(x), Some(y), Some(w), Some(h)) => Some(Region { x, y, width: w, height: h }),
        _ => None,
    }
}

} // verus!
