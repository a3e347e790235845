//! FFmpeg encoder selection: the encoders Capto knows, the arguments each
//! one takes, what a probe of `ffmpeg -encoders` says is available, and the
//! DirectShow device names a listing reports.

use vstd::prelude::*;
use crate::text::{
    chars_of, decimal, decimal_string, eq_ignore_ascii_case, find_from, find_pattern,
    lemma_find_from_bounds, lemma_find_from_skip, lines_of, matches_at, lower, lowercase_chars,
    push_str_item, push_string_item, same_chars, same_ignoring_ascii_case, split_lines,
    string_from, trim, trimmed_range, views,
};

verus! {

#[derive(Debug)]
pub enum EncodeError {
    /// No bundled ffmpeg next to the application.
    FfmpegNotFound,
    /// ffmpeg ran and failed; the text explains how.
    FfmpegFailed(String),
    /// An I/O error while starting or talking to ffmpeg.
    Io(std::io::Error),
}

/// The message of an encoder error; an I/O error's own text (from the
/// operating system) follows its prefix.
pub open spec fn encode_error_text(e: EncodeError, io_text: Seq<char>) -> Seq<char> {
    match e {
        EncodeError::FfmpegNotFound => "bundled ffmpeg not found — run scripts/download-ffmpeg.ps1 (dev) or reinstall Capto (release)"@,
        EncodeError::FfmpegFailed(m) => "ffmpeg failed: "@ + m@,
        EncodeError::Io(_) => "io error: "@ + io_text,
    }
}

impl EncodeError {
    /// The error's message.
    pub fn message(&self) -> (r: String)
        ensures
            exists|io_text: Seq<char>| r@ == encode_error_text(*self, io_text),
            !(self is Io) ==> r@ == encode_error_text(*self, Seq::empty()),
    {
        let mut out: Vec<char>;
        let ghost mut io_t: Seq<char> = Seq::empty();
        match self {
            EncodeError::FfmpegNotFound => {
                out = chars_of(
                    "bundled ffmpeg not found — run scripts/download-ffmpeg.ps1 (dev) or reinstall Capto (release)",
                );
            },
            EncodeError::FfmpegFailed(m) => {
                out = chars_of("ffmpeg failed: ");
                crate::text::extend_str(&mut out, m.as_str());
            },
            EncodeError::Io(e) => {
                out = chars_of("io error: ");
                let t = crate::std_types::io_error_text(e);
                crate::text::extend_str(&mut out, t.as_str());
                proof {
                    io_t = t@;
                }
            },
        }
        proof {
            assert(out@ == encode_error_text(*self, io_t));
        }
        string_from(out.as_slice())
    }
}

#[derive(Debug, Clone, Copy, PartialEq, Eq, Structural)]
pub enum VideoEncoderKind {
    H264Nvenc,
    H264Qsv,
    H264Amf,
    Libx264,
    HevcNvenc,
    HevcQsv,
    HevcAmf,
    Libx265,
    Gif,
}

/// The FFmpeg name of an encoder.
pub open spec fn encoder_name(kind: VideoEncoderKind) -> Seq<char> {
    match kind {
        VideoEncoderKind::H264Nvenc => "h264_nvenc"@,
        VideoEncoderKind::H264Qsv => "h264_qsv"@,
        VideoEncoderKind::H264Amf => "h264_amf"@,
        VideoEncoderKind::Libx264 => "libx264"@,
        VideoEncoderKind::HevcNvenc => "hevc_nvenc"@,
        VideoEncoderKind::HevcQsv => "hevc_qsv"@,
        VideoEncoderKind::HevcAmf => "hevc_amf"@,
        VideoEncoderKind::Libx265 => "libx265"@,
        VideoEncoderKind::Gif => "gif"@,
    }
}

/// Encoders that run on a GPU (NVENC, Quick Sync, AMF).
pub open spec fn is_hardware_encoder(kind: VideoEncoderKind) -> bool {
    match kind {
        VideoEncoderKind::H264Nvenc | VideoEncoderKind::H264Qsv | VideoEncoderKind::H264Amf
        | VideoEncoderKind::HevcNvenc | VideoEncoderKind::HevcQsv
        | VideoEncoderKind::HevcAmf => true,
        _ => false,
    }
}

impl VideoEncoderKind {
    pub fn ffmpeg_name(self) -> (r: &'static str)
        ensures
            r@ == encoder_name(self),
    {
        match self {
            VideoEncoderKind::H264Nvenc => "h264_nvenc",
            VideoEncoderKind::H264Qsv => "h264_qsv",
            VideoEncoderKind::H264Amf => "h264_amf",
            VideoEncoderKind::Libx264 => "libx264",
            VideoEncoderKind::HevcNvenc => "hevc_nvenc",
            VideoEncoderKind::HevcQsv => "hevc_qsv",
            VideoEncoderKind::HevcAmf => "hevc_amf",
            VideoEncoderKind::Libx265 => "libx265",
            VideoEncoderKind::Gif => "gif",
        }
    }

    pub fn is_hardware(self) -> (r: bool)
        ensures
            r == is_hardware_encoder(self),
    {
        match self {
            VideoEncoderKind::H264Nvenc | VideoEncoderKind::H264Qsv | VideoEncoderKind::H264Amf
            | VideoEncoderKind::HevcNvenc | VideoEncoderKind::HevcQsv
            | VideoEncoderKind::HevcAmf => true,
            _ => false,
        }
    }
}

#[derive(Debug)]
pub struct EncoderInfo {
    pub kind: VideoEncoderKind,
    pub name: String,
    pub available: bool,
    pub hardware: bool,
}

/// Every encoder in the order a probe reports them.
pub open spec fn probe_candidates() -> Seq<VideoEncoderKind> {
    seq![
        VideoEncoderKind::H264Nvenc,
        VideoEncoderKind::H264Qsv,
        VideoEncoderKind::H264Amf,
        VideoEncoderKind::Libx264,
        VideoEncoderKind::HevcNvenc,
        VideoEncoderKind::HevcQsv,
        VideoEncoderKind::HevcAmf,
        VideoEncoderKind::Libx265,
        VideoEncoderKind::Gif,
    ]
}

/// H.264 encoders from most to least preferred.
pub open spec fn h264_priority() -> Seq<VideoEncoderKind> {
    seq![
        VideoEncoderKind::H264Nvenc,
        VideoEncoderKind::H264Qsv,
        VideoEncoderKind::H264Amf,
        VideoEncoderKind::Libx264,
    ]
}

/// `pat` occurs somewhere in `s` (`str::contains`).
pub open spec fn contains(s: Seq<char>, pat: Seq<char>) -> bool {
    find_from(s, pat, 0) is Some
}

fn candidate(i: usize) -> (k: VideoEncoderKind)
    requires
        i < 9,
    ensures
        k == probe_candidates()[i as int],
{
    if i == 0 {
        VideoEncoderKind::H264Nvenc
    } else if i == 1 {
        VideoEncoderKind::H264Qsv
    } else if i == 2 {
        VideoEncoderKind::H264Amf
    } else if i == 3 {
        VideoEncoderKind::Libx264
    } else if i == 4 {
        VideoEncoderKind::HevcNvenc
    } else if i == 5 {
        VideoEncoderKind::HevcQsv
    } else if i == 6 {
        VideoEncoderKind::HevcAmf
    } else if i == 7 {
        VideoEncoderKind::Libx265
    } else {
        VideoEncoderKind::Gif
    }
}

fn h264_candidate(i: usize) -> (k: VideoEncoderKind)
    requires
        i < 4,
    ensures
        k == h264_priority()[i as int],
{
    if i == 0 {
        VideoEncoderKind::H264Nvenc
    } else if i == 1 {
        VideoEncoderKind::H264Qsv
    } else if i == 2 {
        VideoEncoderKind::H264Amf
    } else {
        VideoEncoderKind::Libx264
    }
}

/// What a probe reports for `kind`, given the text of `ffmpeg -encoders`.
pub open spec fn probed(kind: VideoEncoderKind, listing: Seq<char>) -> (VideoEncoderKind, Seq<char>, bool, bool) {
    (kind, encoder_name(kind), contains(listing, encoder_name(kind)), is_hardware_encoder(kind))
}

/// The view of a probe entry.
pub open spec fn info_view(e: EncoderInfo) -> (VideoEncoderKind, Seq<char>, bool, bool) {
    (e.kind, e.name@, e.available, e.hardware)
}

/// Read the stdout of `ffmpeg -hide_banner -encoders`: one entry per known
/// encoder, available when its name occurs in the listing.
pub fn encoders_from_listing(listing: &str) -> (r: Vec<EncoderInfo>)
    ensures
        r@.len() == probe_candidates().len(),
        forall|i: int|
            0 <= i < r@.len() ==> info_view(#[trigger] r@[i]) == probed(
                probe_candidates()[i],
                listing@,
            ),
{
    let text = chars_of(listing);
    let mut out: Vec<EncoderInfo> = Vec::new();
    let mut i: usize = 0;
    while i < 9
        invariant
            i <= 9,
            text@ == listing@,
            out@.len() == i,
            forall|j: int|
                0 <= j < i ==> info_view(#[trigger] out@[j]) == probed(
                    probe_candidates()[j],
                    listing@,
                ),
        decreases 9 - i,
    {
        let kind = candidate(i);
        let name_str = kind.ffmpeg_name();
        let name_chars = chars_of(name_str);
        let available = find_pattern(text.as_slice(), name_chars.as_slice(), 0).is_some();
        let name = crate::text::owned(name_str);
        out.push(EncoderInfo { kind, name, available, hardware: kind.is_hardware() });
        i = i + 1;
    }
    out
}

/// Whether the probe lists `kind` as available.
pub open spec fn probe_has(encoders: Seq<EncoderInfo>, kind: VideoEncoderKind) -> bool {
    exists|j: int| 0 <= j < encoders.len() && encoders[j].kind == kind && encoders[j].available
}

fn probe_lists(encoders: &[EncoderInfo], kind: VideoEncoderKind) -> (r: bool)
    ensures
        r == probe_has(encoders@, kind),
{
    let mut j: usize = 0;
    while j < encoders.len()
        invariant
            j <= encoders@.len(),
            forall|k: int| 0 <= k < j ==> !(encoders@[k].kind == kind && encoders@[k].available),
        decreases encoders@.len() - j,
    {
        if encoders[j].kind == kind && encoders[j].available {
            return true;
        }
        j = j + 1;
    }
    false
}

/// The available H.264 encoders in priority order (NVENC, QSV, AMF, x264).
pub open spec fn ranked_h264_spec(encoders: Seq<EncoderInfo>) -> Seq<VideoEncoderKind> {
    h264_priority().filter(|k: VideoEncoderKind| probe_has(encoders, k))
}

/// The probe reports `kind` as available.
pub open spec fn reported_available(encoders: Seq<EncoderInfo>, kind: VideoEncoderKind) -> bool {
    exists|j: int| 0 <= j < encoders.len() && #[trigger] encoders[j].kind == kind && encoders[j].available
}

/// `seq![kind]` when the probe reports it, else nothing.
pub open spec fn if_reported(encoders: Seq<EncoderInfo>, kind: VideoEncoderKind) -> Seq<VideoEncoderKind> {
    if reported_available(encoders, kind) { seq![kind] } else { seq![] }
}

/// Hardware is preferred in a fixed order: the ranked H.264 encoders are the
/// available ones among NVENC, then QSV, then AMF, then libx264; so the best
/// pick is NVENC whenever it is available, QSV when NVENC is not, AMF when
/// neither is, and libx264 otherwise.
pub proof fn lemma_h264_preference(encoders: Seq<EncoderInfo>)
    ensures
        ranked_h264_spec(encoders) == if_reported(encoders, VideoEncoderKind::H264Nvenc) + if_reported(
            encoders,
            VideoEncoderKind::H264Qsv,
        ) + if_reported(encoders, VideoEncoderKind::H264Amf) + if_reported(
            encoders,
            VideoEncoderKind::Libx264,
        ),
        reported_available(encoders, VideoEncoderKind::H264Nvenc) ==> best_h264_spec(encoders)
            == VideoEncoderKind::H264Nvenc,
        !reported_available(encoders, VideoEncoderKind::H264Nvenc) && reported_available(
            encoders,
            VideoEncoderKind::H264Qsv,
        ) ==> best_h264_spec(encoders) == VideoEncoderKind::H264Qsv,
        !reported_available(encoders, VideoEncoderKind::H264Nvenc) && !reported_available(
            encoders,
            VideoEncoderKind::H264Qsv,
        ) && reported_available(encoders, VideoEncoderKind::H264Amf) ==> best_h264_spec(encoders)
            == VideoEncoderKind::H264Amf,
        !reported_available(encoders, VideoEncoderKind::H264Nvenc) && !reported_available(
            encoders,
            VideoEncoderKind::H264Qsv,
        ) && !reported_available(encoders, VideoEncoderKind::H264Amf) ==> best_h264_spec(encoders)
            == VideoEncoderKind::Libx264,
{
    let pred = |k: VideoEncoderKind| probe_has(encoders, k);
    assert forall|k: VideoEncoderKind| #[trigger] probe_has(encoders, k) == reported_available(encoders, k) by {
        if probe_has(encoders, k) {
            let j = choose|j: int| 0 <= j < encoders.len() && encoders[j].kind == k && encoders[j].available;
            assert(encoders[j].kind == k);
        }
    }
    let p = h264_priority();
    reveal_with_fuel(Seq::filter, 5);
    assert(p.drop_last().drop_last().drop_last().drop_last() =~= Seq::<VideoEncoderKind>::empty());
    assert(p.drop_last().drop_last().drop_last() =~= seq![VideoEncoderKind::H264Nvenc]);
    assert(p.drop_last().drop_last() =~= seq![VideoEncoderKind::H264Nvenc, VideoEncoderKind::H264Qsv]);
    assert(p.drop_last() =~= seq![
        VideoEncoderKind::H264Nvenc,
        VideoEncoderKind::H264Qsv,
        VideoEncoderKind::H264Amf,
    ]);
    let f1 = p.drop_last().drop_last().drop_last().filter(pred);
    assert(f1 =~= if_reported(encoders, VideoEncoderKind::H264Nvenc));
    let f2 = p.drop_last().drop_last().filter(pred);
    assert(f2 =~= f1 + if_reported(encoders, VideoEncoderKind::H264Qsv));
    let f3 = p.drop_last().filter(pred);
    assert(f3 =~= f2 + if_reported(encoders, VideoEncoderKind::H264Amf));
    assert(p.filter(pred) =~= f3 + if_reported(encoders, VideoEncoderKind::Libx264));
}

/// Keep the H.264 encoders a probe found, in priority order.
pub fn ranked_h264_from(encoders: &[EncoderInfo]) -> (r: Vec<VideoEncoderKind>)
    ensures
        r@ == ranked_h264_spec(encoders@),
{
    let ghost pred = |k: VideoEncoderKind| probe_has(encoders@, k);
    let mut out: Vec<VideoEncoderKind> = Vec::new();
    let mut i: usize = 0;
    while i < 4
        invariant
            i <= 4,
            pred == (|k: VideoEncoderKind| probe_has(encoders@, k)),
            out@ == h264_priority().take(i as int).filter(pred),
        decreases 4 - i,
    {
        let kind = h264_candidate(i);
        proof {
            reveal_with_fuel(Seq::filter, 2);
            assert(h264_priority().take(i + 1).drop_last() == h264_priority().take(i as int));
        }
        if probe_lists(encoders, kind) {
            out.push(kind);
        }
        i = i + 1;
    }
    proof {
        assert(h264_priority().take(4) == h264_priority());
    }
    out
}

/// Prefer hardware when present: the first available H.264 encoder in
/// priority order, `libx264` when none is.
pub open spec fn best_h264_spec(encoders: Seq<EncoderInfo>) -> VideoEncoderKind {
    let ranked = ranked_h264_spec(encoders);
    if ranked.len() > 0 {
        ranked[0]
    } else {
        VideoEncoderKind::Libx264
    }
}

/// Pick the encoder to record with from a probe.
pub fn pick_best_h264_from(encoders: &[EncoderInfo]) -> (r: VideoEncoderKind)
    ensures
        r == best_h264_spec(encoders@),
{
    let ranked = ranked_h264_from(encoders);
    if ranked.len() > 0 {
        ranked[0]
    } else {
        VideoEncoderKind::Libx264
    }
}

/// The encoder arguments for `kind` at quality `q` (CRF, CQ or QP).
pub open spec fn encoder_args(kind: VideoEncoderKind, q: u8) -> Seq<Seq<char>> {
    let qs = decimal(q as nat);
    match kind {
        VideoEncoderKind::Libx264 => seq![
            "-c:v"@,
            "libx264"@,
            "-preset"@,
            "veryfast"@,
            "-crf"@,
            qs,
            "-pix_fmt"@,
            "yuv420p"@,
        ],
        VideoEncoderKind::Libx265 => seq![
            "-c:v"@,
            "libx265"@,
            "-preset"@,
            "veryfast"@,
            "-crf"@,
            qs,
            "-pix_fmt"@,
            "yuv420p"@,
        ],
        VideoEncoderKind::Gif => seq!["-c:v"@, "gif"@],
        VideoEncoderKind::H264Nvenc | VideoEncoderKind::HevcNvenc => seq![
            "-c:v"@,
            encoder_name(kind),
            "-preset"@,
            "p4"@,
            "-rc"@,
            "vbr"@,
            "-cq"@,
            qs,
            "-b:v"@,
            "0"@,
            "-pix_fmt"@,
            "yuv420p"@,
        ],
        VideoEncoderKind::H264Qsv | VideoEncoderKind::HevcQsv => seq![
            "-c:v"@,
            encoder_name(kind),
            "-global_quality"@,
            qs,
            "-look_ahead"@,
            "1"@,
            "-pix_fmt"@,
            "yuv420p"@,
        ],
        VideoEncoderKind::H264Amf | VideoEncoderKind::HevcAmf => seq![
            "-c:v"@,
            encoder_name(kind),
            "-quality"@,
            "balanced"@,
            "-rc"@,
            "cqp"@,
            "-qp_i"@,
            qs,
            "-qp_p"@,
            qs,
            "-pix_fmt"@,
            "yuv420p"@,
        ],
    }
}

pub struct FfmpegEncoder {
    pub binary: std::path::PathBuf,
}

impl FfmpegEncoder {
    /// The path of the ffmpeg binary.
    pub fn binary_path(&self) -> (r: &std::path::PathBuf)
        ensures
            *r == self.binary,
    {
        &self.binary
    }

    /// FFmpeg arguments that select and tune the video encoder.
    pub fn video_encoder_args(kind: VideoEncoderKind, crf_or_cq: u8) -> (r: Vec<String>)
        ensures
            views(r@) == encoder_args(kind, crf_or_cq),
    {
        let mut args: Vec<String> = Vec::new();
        match kind {
            VideoEncoderKind::Libx264 | VideoEncoderKind::Libx265 => {
                push_str_item(&mut args, "-c:v");
                push_str_item(&mut args, kind.ffmpeg_name());
                push_str_item(&mut args, "-preset");
                push_str_item(&mut args, "veryfast");
                push_str_item(&mut args, "-crf");
                push_string_item(&mut args, decimal_string(crf_or_cq as u64));
            },
            VideoEncoderKind::Gif => {
                push_str_item(&mut args, "-c:v");
                push_str_item(&mut args, "gif");
                proof {
                    assert(views(args@) =~= encoder_args(kind, crf_or_cq));
                }
                return args;
            },
            VideoEncoderKind::H264Nvenc | VideoEncoderKind::HevcNvenc => {
                push_str_item(&mut args, "-c:v");
                push_str_item(&mut args, kind.ffmpeg_name());
                push_str_item(&mut args, "-preset");
                push_str_item(&mut args, "p4");
                push_str_item(&mut args, "-rc");
                push_str_item(&mut args, "vbr");
                push_str_item(&mut args, "-cq");
                push_string_item(&mut args, decimal_string(crf_or_cq as u64));
                push_str_item(&mut args, "-b:v");
                push_str_item(&mut args, "0");
            },
            VideoEncoderKind::H264Qsv | VideoEncoderKind::HevcQsv => {
                push_str_item(&mut args, "-c:v");
                push_str_item(&mut args, kind.ffmpeg_name());
                push_str_item(&mut args, "-global_quality");
                push_string_item(&mut args, decimal_string(crf_or_cq as u64));
                push_str_item(&mut args, "-look_ahead");
                push_str_item(&mut args, "1");
            },
            VideoEncoderKind::H264Amf | VideoEncoderKind::HevcAmf => {
                push_str_item(&mut args, "-c:v");
                push_str_item(&mut args, kind.ffmpeg_name());
                push_str_item(&mut args, "-quality");
                push_str_item(&mut args, "balanced");
                push_str_item(&mut args, "-rc");
                push_str_item(&mut args, "cqp");
                push_str_item(&mut args, "-qp_i");
                push_string_item(&mut args, decimal_string(crf_or_cq as u64));
                push_str_item(&mut args, "-qp_p");
                push_string_item(&mut args, decimal_string(crf_or_cq as u64));
            },
        }
        push_str_item(&mut args, "-pix_fmt");
        push_str_item(&mut args, "yuv420p");
        proof {
            assert(views(args@) =~= encoder_args(kind, crf_or_cq));
        }
        args
    }
}


/// The device name a line of `ffmpeg -list_devices` reports, if it is a
/// video device: the text between the first pair of quotes, trimmed.
pub open spec fn line_device(l: Seq<char>) -> Option<Seq<char>> {
    match find_from(l, seq!['"'], 0) {
        None => None,
        Some(st) => if !contains(l, "(video)"@) {
            None
        } else {
            let rest = l.skip(st + 1);
            match find_from(rest, seq!['"'], 0) {
                None => None,
                Some(e) => Some(trim(rest.take(e))),
            }
        },
    }
}

/// The video device names of the first `n` lines, each non-empty name once,
/// in order of first appearance.
pub open spec fn devices_from(lines: Seq<Seq<char>>, n: int) -> Seq<Seq<char>>
    decreases n,
{
    if n <= 0 {
        seq![]
    } else {
        let acc = devices_from(lines, n - 1);
        match line_device(lines[n - 1]) {
            Some(name) => if name.len() > 0 && !acc.contains(name) {
                acc.push(name)
            } else {
                acc
            },
            None => acc,
        }
    }
}

/// What `parse_dshow_video_devices` returns for a listing.
pub open spec fn dshow_devices(stderr: Seq<char>) -> Seq<Seq<char>> {
    devices_from(lines_of(stderr), lines_of(stderr).len() as int)
}

fn device_of_line(l: &[char]) -> (r: Option<Vec<char>>)
    ensures
        match r {
            None => line_device(l@) is None,
            Some(name) => line_device(l@) == Some(name@),
        },
{
    let quote: Vec<char> = vec!['"'];
    let video = chars_of("(video)");
    assert(quote@ == seq!['"']);
    let n = l.len();
    proof {
        lemma_find_from_bounds(l@, seq!['"'], 0);
    }
    match find_pattern(l, quote.as_slice(), 0) {
        None => None,
        Some(st) => {
            if find_pattern(l, video.as_slice(), 0).is_none() {
                return None;
            }
            proof {
                assert(matches_at(l@, seq!['"'], st as int));
                lemma_find_from_skip(l@, seq!['"'], st + 1, 0);
                lemma_find_from_bounds(l@, seq!['"'], st + 1);
            }
            match find_pattern(l, quote.as_slice(), st + 1) {
                None => None,
                Some(end) => {
                    let name = trimmed_range(l, st + 1, end);
                    proof {
                        assert(l@.skip(st + 1).take(end - (st + 1)) == l@.subrange(
                            st + 1,
                            end as int,
                        ));
                    }
                    Some(name)
                },
            }
        },
    }
}

fn contains_name(names: &Vec<Vec<char>>, name: &[char]) -> (r: bool)
    ensures
        r == names@.map_values(|v: Vec<char>| v@).contains(name@),
{
    let ghost vs = names@.map_values(|v: Vec<char>| v@);
    let mut i: usize = 0;
    while i < names.len()
        invariant
            i <= names@.len(),
            vs == names@.map_values(|v: Vec<char>| v@),
            forall|k: int| 0 <= k < i ==> vs[k] != name@,
        decreases names@.len() - i,
    {
        if same_chars(names[i].as_slice(), name) {
            proof {
                assert(vs[i as int] == name@);
            }
            return true;
        }
        i = i + 1;
    }
    false
}

/// Parse `ffmpeg -f dshow -list_devices` stderr into video device names.
pub fn parse_dshow_video_devices(stderr: &str) -> (r: Vec<String>)
    ensures
        views(r@) == dshow_devices(stderr@),
{
    let text = chars_of(stderr);
    let lines = split_lines(text.as_slice());
    let ghost ls = lines_of(stderr@);
    let mut names: Vec<Vec<char>> = Vec::new();
    let mut i: usize = 0;
    while i < lines.len()
        invariant
            i <= lines@.len(),
            lines@.map_values(|l: Vec<char>| l@) == ls,
            ls == lines_of(stderr@),
            names@.map_values(|v: Vec<char>| v@) == devices_from(ls, i as int),
        decreases lines@.len() - i,
    {
        assert(lines@[i as int]@ == ls[i as int]);
        match device_of_line(lines[i].as_slice()) {
            Some(name) => {
                if name.len() > 0 && !contains_name(&names, name.as_slice()) {
                    let ghost before = names@.map_values(|v: Vec<char>| v@);
                    let ghost nv = name@;
                    names.push(name);
                    proof {
                        assert(names@.map_values(|v: Vec<char>| v@) =~= before.push(nv));
                    }
                }
            },
            None => {},
        }
        i = i + 1;
    }
    let mut out: Vec<String> = Vec::new();
    let mut j: usize = 0;
    let ghost ns = names@.map_values(|v: Vec<char>| v@);
    while j < names.len()
        invariant
            j <= names@.len(),
            ns == names@.map_values(|v: Vec<char>| v@),
            views(out@) == ns.take(j as int),
        decreases names@.len() - j,
    {
        let s = string_from(names[j].as_slice());
        proof {
            assert(ns.take(j as int).push(ns[j as int]) == ns.take(j + 1));
        }
        push_string_item(&mut out, s);
        j = j + 1;
    }
    proof {
        assert(ns.take(names@.len() as int) == ns);
    }
    out
}

/// The part of a device label before its first `(`, trimmed.
pub open spec fn label_base(s: Seq<char>) -> Seq<char> {
    trim(
        match find_from(s, seq!['('], 0) {
            Some(i) => s.take(i),
            None => s,
        },
    )
}

/// A loose match between a device name and the base of the preferred label.
pub open spec fn fuzzy_match(d: Seq<char>, base: Seq<char>) -> bool {
    ||| eq_ignore_ascii_case(label_base(d), base)
    ||| contains(lower(d), lower(base))
    ||| contains(lower(base), lower(d))
}

/// First index `>= i` of a device equal to `p` ignoring ASCII case.
pub open spec fn first_exact(ds: Seq<Seq<char>>, p: Seq<char>, i: int) -> Option<int>
    decreases ds.len() - i,
{
    if i < 0 || i >= ds.len() {
        None
    } else if eq_ignore_ascii_case(ds[i], p) {
        Some(i)
    } else {
        first_exact(ds, p, i + 1)
    }
}

/// First index `>= i` of a device that loosely matches `base`.
pub open spec fn first_fuzzy(ds: Seq<Seq<char>>, base: Seq<char>, i: int) -> Option<int>
    decreases ds.len() - i,
{
    if i < 0 || i >= ds.len() {
        None
    } else if fuzzy_match(ds[i], base) {
        Some(i)
    } else {
        first_fuzzy(ds, base, i + 1)
    }
}

pub proof fn lemma_first_exact_bounds(ds: Seq<Seq<char>>, p: Seq<char>, i: int)
    ensures
        first_exact(ds, p, i) matches Some(k) ==> 0 <= i <= k < ds.len(),
    decreases ds.len() - i,
{
    if i >= 0 && i < ds.len() && !eq_ignore_ascii_case(ds[i], p) {
        lemma_first_exact_bounds(ds, p, i + 1);
    }
}

pub proof fn lemma_first_fuzzy_bounds(ds: Seq<Seq<char>>, b: Seq<char>, i: int)
    ensures
        first_fuzzy(ds, b, i) matches Some(k) ==> 0 <= i <= k < ds.len(),
    decreases ds.len() - i,
{
    if i >= 0 && i < ds.len() && !fuzzy_match(ds[i], b) {
        lemma_first_fuzzy_bounds(ds, b, i + 1);
    }
}

/// The dshow name to record from: the preferred label matched exactly
/// (ignoring ASCII case), else loosely, else the first device.
pub open spec fn resolve_dshow(preferred: Option<Seq<char>>, ds: Seq<Seq<char>>) -> Option<Seq<char>> {
    if ds.len() == 0 {
        None
    } else {
        match preferred {
            None => Some(ds[0]),
            Some(raw) => {
                let p = trim(raw);
                if p.len() == 0 {
                    Some(ds[0])
                } else {
                    match first_exact(ds, p, 0) {
                        Some(i) => Some(ds[i]),
                        None => match first_fuzzy(ds, label_base(p), 0) {
                            Some(i) => Some(ds[i]),
                            None => Some(ds[0]),
                        },
                    }
                }
            },
        }
    }
}

fn base_of(s: &[char]) -> (r: Vec<char>)
    ensures
        r@ == label_base(s@),
{
    let paren: Vec<char> = vec!['('];
    assert(paren@ == seq!['(']);
    proof {
        lemma_find_from_bounds(s@, seq!['('], 0);
    }
    match find_pattern(s, paren.as_slice(), 0) {
        Some(i) => {
            proof {
                assert(matches_at(s@, seq!['('], i as int));
                assert(s@.subrange(0, i as int) == s@.take(i as int));
            }
            trimmed_range(s, 0, i)
        },
        None => {
            proof {
                assert(s@.subrange(0, s@.len() as int) == s@);
            }
            trimmed_range(s, 0, s.len())
        },
    }
}

fn is_fuzzy(d: &[char], base: &[char]) -> (r: bool)
    ensures
        r == fuzzy_match(d@, base@),
{
    let db = base_of(d);
    if same_ignoring_ascii_case(db.as_slice(), base) {
        return true;
    }
    let ld = lowercase_chars(d);
    let lb = lowercase_chars(base);
    find_pattern(ld.as_slice(), lb.as_slice(), 0).is_some() || find_pattern(
        lb.as_slice(),
        ld.as_slice(),
        0,
    ).is_some()
}

/// Pick a dshow name for recording: exact label, fuzzy match, or first device.
pub fn resolve_dshow_video_name(preferred: Option<&str>, devices: &[String]) -> (r: Option<String>)
    ensures
        match r {
            None => resolve_dshow(
                match preferred {
                    Some(p) => Some(p@),
                    None => None,
                },
                views(devices@),
            ) is None,
            Some(name) => resolve_dshow(
                match preferred {
                    Some(p) => Some(p@),
                    None => None,
                },
                views(devices@),
            ) == Some(name@),
        },
{
    let ghost ds = views(devices@);
    assert(ds.len() == devices@.len());
    if devices.len() == 0 {
        return None;
    }
    let pref = match preferred {
        None => {
            return Some(devices[0].clone());
        },
        Some(p) => p,
    };
    let raw = chars_of(pref);
    let p = trimmed_range(raw.as_slice(), 0, raw.len());
    proof {
        assert(raw@.subrange(0, raw@.len() as int) == raw@);
    }
    if p.len() == 0 {
        return Some(devices[0].clone());
    }
    let mut i: usize = 0;
    while i < devices.len()
        invariant
            i <= devices@.len(),
            ds == views(devices@),
            preferred == Some(pref),
            p@ == trim(pref@),
            p@.len() > 0,
            ds.len() == devices@.len(),
            devices@.len() > 0,
            first_exact(ds, p@, 0) == first_exact(ds, p@, i as int),
        decreases devices@.len() - i,
    {
        let d = chars_of(devices[i].as_str());
        assert(ds[i as int] == devices@[i as int]@);
        if same_ignoring_ascii_case(d.as_slice(), p.as_slice()) {
            proof {
                assert(first_exact(ds, p@, i as int) == Some(i as int));
                assert(resolve_dshow(Some(pref@), ds) == Some(ds[i as int]));
            }
            let found = devices[i].clone();
            assert(found@ == ds[i as int]);
            return Some(found);
        }
        i = i + 1;
    }
    let base = base_of(p.as_slice());
    let mut j: usize = 0;
    while j < devices.len()
        invariant
            j <= devices@.len(),
            ds == views(devices@),
            preferred == Some(pref),
            p@ == trim(pref@),
            p@.len() > 0,
            ds.len() == devices@.len(),
            devices@.len() > 0,
            first_exact(ds, p@, 0) is None,
            base@ == label_base(p@),
            first_fuzzy(ds, base@, 0) == first_fuzzy(ds, base@, j as int),
        decreases devices@.len() - j,
    {
        let d = chars_of(devices[j].as_str());
        assert(ds[j as int] == devices@[j as int]@);
        if is_fuzzy(d.as_slice(), base.as_slice()) {
            proof {
                assert(first_fuzzy(ds, base@, j as int) == Some(j as int));
                assert(resolve_dshow(Some(pref@), ds) == Some(ds[j as int]));
            }
            let found = devices[j].clone();
            assert(found@ == ds[j as int]);
            return Some(found);
        }
        j = j + 1;
    }
    Some(devices[0].clone())
}

} // verus!
