//! The FFmpeg command line of a screen recording.
//!
//! Frames come in as raw BGRA on FFmpeg's stdin (`pipe:0`) and each native
//! audio stream as raw `f32le` PCM from a localhost TCP url. Audio volumes
//! are percentages; the gain FFmpeg gets is the percentage over 100, capped
//! at 2, written as the shortest decimal.

use vstd::prelude::*;
use crate::audio::{AudioDeviceKind, PcmInputSpec};
use crate::capture::{virtual_screen, VirtualScreen};
use crate::encode::{encoder_args, FfmpegEncoder, VideoEncoderKind};
use crate::settings::{OutputFormat, Region, VideoSourceKind};
use crate::text::{
    append_items, concat_all, concat_parts, decimal, decimal_string, extend_chars, extend_str,
    join_parts, joined, push_decimal, push_str_item, push_string_item, string_from, views,
};

verus! {

/// What a recording is asked to capture and how to encode it.
#[derive(Debug)]
pub struct RecordRequest {
    pub source: VideoSourceKind,
    pub display_id: Option<u32>,
    pub window_id: Option<u32>,
    pub region: Option<Region>,
    pub include_cursor: bool,
    pub mic_device: Option<String>,
    pub loopback_device: Option<String>,
    pub mic_volume: u8,
    pub loopback_volume: u8,
    pub encoder: Option<VideoEncoderKind>,
    pub format: OutputFormat,
    pub fps: u32,
    /// 1..=100; higher is better quality and larger files.
    pub quality: u8,
    pub output_path: String,
    pub hide_app_while_recording: bool,
}

/// The quality a request gets when it names none.
pub fn default_record_quality() -> (r: u8)
    ensures
        r == 60,
{
    60
}

/// The volume percentage an audio input gets when the request names none.
pub fn default_audio_volume() -> (r: u8)
    ensures
        r == 100,
{
    100
}

/// `v / 2 * 2`, but at least 2: an even frame edge.
pub open spec fn even_edge(v: u32) -> u32 {
    if v / 2 * 2 < 2 {
        2
    } else {
        (v / 2 * 2) as u32
    }
}

/// The frame size a recording uses: the region's, else the virtual
/// screen's, each edge made even and at least 2.
pub open spec fn frame_size(region: Option<Region>, screen_w: u32, screen_h: u32) -> (u32, u32) {
    match region {
        Some(r) => (even_edge(r.width), even_edge(r.height)),
        None => (even_edge(screen_w), even_edge(screen_h)),
    }
}

fn even(v: u32) -> (r: u32)
    ensures
        r == even_edge(v),
{
    let e = v / 2 * 2;
    if e < 2 {
        2
    } else {
        e
    }
}

/// The even frame size the screen pump and FFmpeg's raw video input use
/// when the virtual desktop is `screen`.
pub fn record_frame_size_on(req: &RecordRequest, screen: &VirtualScreen) -> (r: (u32, u32))
    ensures
        r == frame_size(req.region, screen.width, screen.height),
{
    match req.region {
        Some(rg) => (even(rg.width), even(rg.height)),
        None => (even(screen.width), even(screen.height)),
    }
}

/// The even frame size of a recording on this machine's virtual screen.
pub fn record_frame_size(req: &RecordRequest) -> (r: (u32, u32))
    ensures
        r == frame_size(req.region, 1920, 1080),
{
    let screen = virtual_screen();
    record_frame_size_on(req, &screen)
}

/// The x264 CRF (or NVENC/QSV/AMF quality) for a 1..=100 quality: 51 at
/// the worst, 18 at the best.
pub open spec fn crf_of(quality: u8) -> u8 {
    let q: int = if quality < 1 {
        1
    } else if quality > 100 {
        100
    } else {
        quality as int
    };
    (51 - q * 33 / 100) as u8
}

pub fn quality_to_crf(quality: u8) -> (r: u8)
    ensures
        r == crf_of(quality),
        18 <= r <= 51,
{
    let q: u32 = if quality < 1 {
        1
    } else if quality > 100 {
        100
    } else {
        quality as u32
    };
    let crf: u32 = 51 - (q * 33) / 100;
    let clamped: u32 = if crf < 18 {
        18
    } else if crf > 51 {
        51
    } else {
        crf
    };
    clamped as u8
}

/// The volume percentage of an input of `kind`, capped at 200.
pub open spec fn gain_percent(kind: AudioDeviceKind, mic_volume: u8, loopback_volume: u8) -> nat {
    let v = match kind {
        AudioDeviceKind::Input => mic_volume,
        AudioDeviceKind::Loopback | AudioDeviceKind::Output => loopback_volume,
    };
    if v > 200 {
        200
    } else {
        v as nat
    }
}

/// `p / 100` as the shortest decimal: `"1"`, `"1.25"`, `"0.5"`, `"0.07"`.
pub open spec fn gain_text(p: nat) -> Seq<char> {
    let whole = p / 100;
    let frac = p % 100;
    if frac == 0 {
        decimal(whole)
    } else if frac % 10 == 0 {
        decimal(whole) + seq!['.'] + decimal(frac / 10)
    } else if frac < 10 {
        decimal(whole) + seq!['.', '0'] + decimal(frac)
    } else {
        decimal(whole) + seq!['.'] + decimal(frac)
    }
}

fn push_gain(out: &mut Vec<char>, p: u8)
    ensures
        final(out)@ == old(out)@ + gain_text(p as nat),
{
    let whole = p / 100;
    let frac = p % 100;
    push_decimal(out, whole as u64);
    if frac == 0 {
    } else if frac % 10 == 0 {
        out.push('.');
        push_decimal(out, (frac / 10) as u64);
    } else if frac < 10 {
        out.push('.');
        out.push('0');
        push_decimal(out, frac as u64);
    } else {
        out.push('.');
        push_decimal(out, frac as u64);
    }
    proof {
        let w = decimal(whole as nat);
        if frac == 0 {
        } else if frac % 10 == 0 {
            assert(final(out)@ =~= old(out)@ + (w + seq!['.'] + decimal((frac / 10) as nat)));
        } else if frac < 10 {
            assert(final(out)@ =~= old(out)@ + (w + seq!['.', '0'] + decimal(frac as nat)));
        } else {
            assert(final(out)@ =~= old(out)@ + (w + seq!['.'] + decimal(frac as nat)));
        }
    }
}

fn volume_percent(kind: AudioDeviceKind, req: &RecordRequest) -> (r: u8)
    ensures
        r == gain_percent(kind, req.mic_volume, req.loopback_volume),
{
    let v = match kind {
        AudioDeviceKind::Input => req.mic_volume,
        AudioDeviceKind::Loopback | AudioDeviceKind::Output => req.loopback_volume,
    };
    if v > 200 {
        200
    } else {
        v
    }
}

/// The gain text of the `k`-th audio input.
pub open spec fn input_gain(pcm: Seq<PcmInputSpec>, req: RecordRequest, k: int) -> Seq<char> {
    gain_text(gain_percent(pcm[k].kind, req.mic_volume, req.loopback_volume))
}

/// `[{i}:a]volume={gain}[a{i}]`: the volume filter of input `i`.
pub open spec fn volume_label(i: nat, gain: Seq<char>) -> Seq<char> {
    seq!['['] + decimal(i) + ":a]volume="@ + gain + "[a"@ + decimal(i) + seq![']']
}

/// `[a{i}]`: the mixer's pad for input `i`.
pub open spec fn mix_pad(i: nat) -> Seq<char> {
    "[a"@ + decimal(i) + seq![']']
}

/// The volume filters of every audio input; FFmpeg input `k + 1` is the
/// `k`-th audio stream (input 0 is the video pipe).
pub open spec fn volume_labels(pcm: Seq<PcmInputSpec>, req: RecordRequest) -> Seq<Seq<char>> {
    Seq::new(pcm.len(), |k: int| volume_label((k + 1) as nat, input_gain(pcm, req, k)))
}

pub open spec fn mix_pads(n: nat) -> Seq<Seq<char>> {
    Seq::new(n, |k: int| mix_pad((k + 1) as nat))
}

/// The audio mixing graph: each input through its volume filter, then all
/// of them into `amix`, out as `[aout]`.
pub open spec fn mix_graph(pcm: Seq<PcmInputSpec>, req: RecordRequest) -> Seq<char> {
    joined(volume_labels(pcm, req), seq![';']) + seq![';'] + concat_all(mix_pads(pcm.len()))
        + "amix=inputs="@ + decimal(pcm.len()) + ":duration=shortest:dropout_transition=0:normalize=0[aout]"@
}

fn volume_label_chars(i: usize, p: u8) -> (r: Vec<char>)
    ensures
        r@ == volume_label(i as nat, gain_text(p as nat)),
{
    let mut out: Vec<char> = Vec::new();
    out.push('[');
    push_decimal(&mut out, i as u64);
    extend_str(&mut out, ":a]volume=");
    push_gain(&mut out, p);
    extend_str(&mut out, "[a");
    push_decimal(&mut out, i as u64);
    out.push(']');
    proof {
        assert(out@ =~= volume_label(i as nat, gain_text(p as nat)));
    }
    out
}

fn mix_graph_string(pcm: &[PcmInputSpec], req: &RecordRequest) -> (r: String)
    ensures
        r@ == mix_graph(pcm@, *req),
{
    let n = pcm.len();
    let ghost labels = volume_labels(pcm@, *req);
    let ghost pads = mix_pads(n as nat);
    let mut parts: Vec<Vec<char>> = Vec::new();
    let mut pad_parts: Vec<Vec<char>> = Vec::new();
    let mut k: usize = 0;
    while k < n
        invariant
            n == pcm@.len(),
            k <= n,
            labels == volume_labels(pcm@, *req),
            pads == mix_pads(n as nat),
            parts@.map_values(|l: Vec<char>| l@) == labels.take(k as int),
            pad_parts@.map_values(|l: Vec<char>| l@) == pads.take(k as int),
        decreases n - k,
    {
        let p = volume_percent(pcm[k].kind, req);
        let label = volume_label_chars(k + 1, p);
        let mut pad: Vec<char> = Vec::new();
        extend_str(&mut pad, "[a");
        push_decimal(&mut pad, (k + 1) as u64);
        pad.push(']');
        proof {
            assert(label@ == labels[k as int]);
            assert(pad@ =~= pads[k as int]);
        }
        let ghost before = parts@.map_values(|l: Vec<char>| l@);
        let ghost before_pads = pad_parts@.map_values(|l: Vec<char>| l@);
        parts.push(label);
        pad_parts.push(pad);
        proof {
            assert(parts@.map_values(|l: Vec<char>| l@) == before.push(labels[k as int]));
            assert(before.push(labels[k as int]) =~= labels.take(k + 1));
            assert(pad_parts@.map_values(|l: Vec<char>| l@) == before_pads.push(pads[k as int]));
            assert(before_pads.push(pads[k as int]) =~= pads.take(k + 1));
        }
        k = k + 1;
    }
    proof {
        assert(labels.take(n as int) == labels);
        assert(pads.take(n as int) == pads);
        assert(parts@.map_values(|l: Vec<char>| l@).skip(0) == labels);
    }
    let mut semi: Vec<char> = Vec::new();
    semi.push(';');
    let mut out = join_parts(&parts, 0, semi.as_slice());
    let ghost j = out@;
    proof {
        assert(semi@ =~= seq![';']);
        assert(j == joined(labels, seq![';']));
    }
    out.push(';');
    let mixed = concat_parts(&pad_parts);
    extend_chars(&mut out, mixed.as_slice());
    let ghost m = out@;
    proof {
        assert(mixed@ == concat_all(pads));
        assert(m =~= j + seq![';'] + concat_all(pads));
    }
    extend_str(&mut out, "amix=inputs=");
    push_decimal(&mut out, n as u64);
    extend_str(&mut out, ":duration=shortest:dropout_transition=0:normalize=0[aout]");
    proof {
        assert(out@ =~= mix_graph(pcm@, *req));
    }
    string_from(out.as_slice())
}

/// The raw BGRA video input on stdin, at `w`x`h` and `fps`.
pub open spec fn prelude_args(w: u32, h: u32, fps: u32) -> Seq<Seq<char>> {
    seq![
        "-y"@,
        "-hide_banner"@,
        "-loglevel"@,
        "warning"@,
        "-thread_queue_size"@,
        "512"@,
        "-use_wallclock_as_timestamps"@,
        "1"@,
        "-f"@,
        "rawvideo"@,
        "-pix_fmt"@,
        "bgra"@,
        "-video_size"@,
        decimal(w as nat) + seq!['x'] + decimal(h as nat),
        "-framerate"@,
        decimal(fps as nat),
        "-thread_queue_size"@,
        "64"@,
        "-i"@,
        "pipe:0"@,
    ]
}

/// One raw PCM input, fully described so FFmpeg does not probe it.
pub open spec fn pcm_args(p: PcmInputSpec) -> Seq<Seq<char>> {
    seq![
        "-f"@,
        "f32le"@,
        "-ar"@,
        decimal(p.sample_rate as nat),
        "-ac"@,
        decimal(p.channels as nat),
        "-analyzeduration"@,
        "0"@,
        "-probesize"@,
        "32"@,
        "-thread_queue_size"@,
        "512"@,
        "-i"@,
        p.url@,
    ]
}

/// The inputs of every PCM stream, in order.
pub open spec fn all_pcm_args(pcm: Seq<PcmInputSpec>) -> Seq<Seq<char>>
    decreases pcm.len(),
{
    if pcm.len() == 0 {
        seq![]
    } else {
        all_pcm_args(pcm.drop_last()) + pcm_args(pcm.last())
    }
}

pub open spec fn aac_args() -> Seq<Seq<char>> {
    seq!["-c:a"@, "aac"@, "-b:a"@, "192k"@]
}

/// The audio of a recording with at most one audio input: none (`-an`),
/// or input 1 through its volume filter, encoded as AAC.
pub open spec fn single_audio_args(pcm: Seq<PcmInputSpec>, req: RecordRequest) -> Seq<Seq<char>> {
    if pcm.len() == 0 {
        seq!["-an"@]
    } else {
        seq!["-map"@, decimal(1) + ":a"@, "-af"@, "volume="@ + input_gain(pcm, req, 0)]
            + aac_args()
    }
}

/// The video filter that makes both frame edges even.
pub open spec fn even_scale() -> Seq<char> {
    "scale=trunc(iw/2)*2:trunc(ih/2)*2"@
}

/// The GIF palette graph, at most 15 frames per second.
pub open spec fn gif_graph(fps: u32) -> Seq<char> {
    "[0:v]fps="@ + decimal(if fps < 15 { fps as nat } else { 15 })
        + ",scale=iw:-1:flags=lanczos,scale=trunc(iw/2)*2:trunc(ih/2)*2,split[s0][s1];[s0]palettegen[p];[s1][p]paletteuse"@
}

/// The movflags that keep an MP4 playable when FFmpeg is killed.
pub open spec fn fragmented_mp4_flags() -> Seq<char> {
    "+frag_keyframe+empty_moov+default_base_moof"@
}

/// What follows the inputs of a non-GIF recording, up to `-fps_mode`.
pub open spec fn av_args(req: RecordRequest, enc: VideoEncoderKind, pcm: Seq<PcmInputSpec>) -> Seq<Seq<char>> {
    let n = pcm.len();
    let video = encoder_args(enc, crf_of(req.quality));
    if n > 1 {
        seq!["-filter_complex"@, mix_graph(pcm, req)] + (if req.format == OutputFormat::AudioOnly {
            seq!["-vn"@]
        } else {
            seq!["-vf"@, even_scale()] + video + seq!["-map"@, "0:v"@]
        }) + seq!["-map"@, "[aout]"@] + aac_args()
    } else if req.format == OutputFormat::AudioOnly {
        seq!["-vf"@, even_scale(), "-vn"@] + single_audio_args(pcm, req)
    } else if n == 0 {
        seq!["-vf"@, even_scale()] + video + seq!["-an"@]
    } else {
        seq!["-vf"@, even_scale()] + video + seq!["-map"@, "0:v"@] + single_audio_args(pcm, req)
    }
}

/// The whole FFmpeg command line of a recording: the video pipe, every
/// PCM input, then either the GIF palette graph or the video encoder and
/// audio mapping (several audio inputs are mixed), a constant frame rate,
/// fragmented MP4 flags for MP4, and the output path last.
pub open spec fn record_args_on(
    req: RecordRequest,
    enc: VideoEncoderKind,
    pcm: Seq<PcmInputSpec>,
    screen_w: u32,
    screen_h: u32,
) -> Seq<Seq<char>> {
    let size = frame_size(req.region, screen_w, screen_h);
    let head = prelude_args(size.0, size.1, req.fps) + all_pcm_args(pcm);
    if req.format == OutputFormat::Gif {
        head + seq!["-filter_complex"@, gif_graph(req.fps), "-c:v"@, "gif"@, req.output_path@]
    } else {
        head + av_args(req, enc, pcm) + seq!["-fps_mode"@, "cfr"@] + (if req.format
            == OutputFormat::Mp4 {
            seq!["-movflags"@, fragmented_mp4_flags()]
        } else {
            seq![]
        }) + seq![req.output_path@]
    }
}

/// The command line of a recording where there is no native screen pump:
/// one tenth of a second of black 1280x720 video from FFmpeg's `lavfi`
/// source, written to the output path.
pub open spec fn placeholder_args(output_path: Seq<char>) -> Seq<Seq<char>> {
    seq![
        "-y"@,
        "-f"@,
        "lavfi"@,
        "-i"@,
        "color=c=black:s=1280x720:r=30"@,
        "-t"@,
        "0.1"@,
        output_path,
    ]
}

fn prelude(w: u32, h: u32, fps: u32) -> (r: Vec<String>)
    ensures
        views(r@) == prelude_args(w, h, fps),
{
    let mut v: Vec<String> = Vec::new();
    push_str_item(&mut v, "-y");
    push_str_item(&mut v, "-hide_banner");
    push_str_item(&mut v, "-loglevel");
    push_str_item(&mut v, "warning");
    push_str_item(&mut v, "-thread_queue_size");
    push_str_item(&mut v, "512");
    push_str_item(&mut v, "-use_wallclock_as_timestamps");
    push_str_item(&mut v, "1");
    push_str_item(&mut v, "-f");
    push_str_item(&mut v, "rawvideo");
    push_str_item(&mut v, "-pix_fmt");
    push_str_item(&mut v, "bgra");
    push_str_item(&mut v, "-video_size");
    let mut size: Vec<char> = Vec::new();
    push_decimal(&mut size, w as u64);
    size.push('x');
    push_decimal(&mut size, h as u64);
    push_string_item(&mut v, string_from(size.as_slice()));
    push_str_item(&mut v, "-framerate");
    push_string_item(&mut v, decimal_string(fps as u64));
    push_str_item(&mut v, "-thread_queue_size");
    push_str_item(&mut v, "64");
    push_str_item(&mut v, "-i");
    push_str_item(&mut v, "pipe:0");
    proof {
        assert(size@ =~= decimal(w as nat) + seq!['x'] + decimal(h as nat));
        assert(views(v@) =~= prelude_args(w, h, fps));
    }
    v
}

fn pcm_input_args(p: &PcmInputSpec) -> (r: Vec<String>)
    ensures
        views(r@) == pcm_args(*p),
{
    let mut v: Vec<String> = Vec::new();
    push_str_item(&mut v, "-f");
    push_str_item(&mut v, "f32le");
    push_str_item(&mut v, "-ar");
    push_string_item(&mut v, decimal_string(p.sample_rate as u64));
    push_str_item(&mut v, "-ac");
    push_string_item(&mut v, decimal_string(p.channels as u64));
    push_str_item(&mut v, "-analyzeduration");
    push_str_item(&mut v, "0");
    push_str_item(&mut v, "-probesize");
    push_str_item(&mut v, "32");
    push_str_item(&mut v, "-thread_queue_size");
    push_str_item(&mut v, "512");
    push_str_item(&mut v, "-i");
    push_string_item(&mut v, p.url.clone());
    proof {
        assert(views(v@) =~= pcm_args(*p));
    }
    v
}

fn push_aac(v: &mut Vec<String>)
    ensures
        views(final(v)@) == views(old(v)@) + aac_args(),
{
    push_str_item(v, "-c:a");
    push_str_item(v, "aac");
    push_str_item(v, "-b:a");
    push_str_item(v, "192k");
    proof {
        assert(views(final(v)@) =~= views(old(v)@) + aac_args());
    }
}

fn push_single_audio(v: &mut Vec<String>, pcm: &[PcmInputSpec], req: &RecordRequest)
    ensures
        views(final(v)@) == views(old(v)@) + single_audio_args(pcm@, *req),
{
    if pcm.len() == 0 {
        push_str_item(v, "-an");
        proof {
            assert(views(final(v)@) =~= views(old(v)@) + single_audio_args(pcm@, *req));
        }
    } else {
        let ghost start = views(v@);
        push_str_item(v, "-map");
        let mut m: Vec<char> = Vec::new();
        push_decimal(&mut m, 1);
        extend_str(&mut m, ":a");
        push_string_item(v, string_from(m.as_slice()));
        push_str_item(v, "-af");
        let mut vol: Vec<char> = Vec::new();
        extend_str(&mut vol, "volume=");
        push_gain(&mut vol, volume_percent(pcm[0].kind, req));
        push_string_item(v, string_from(vol.as_slice()));
        let ghost mid = views(v@);
        push_aac(v);
        proof {
            assert(m@ =~= decimal(1) + ":a"@);
            assert(vol@ =~= "volume="@ + input_gain(pcm@, *req, 0));
            assert(mid =~= start + seq!["-map"@, decimal(1) + ":a"@, "-af"@, "volume="@
                + input_gain(pcm@, *req, 0)]);
            assert(views(final(v)@) =~= views(old(v)@) + single_audio_args(pcm@, *req));
        }
    }
}

fn push_video(v: &mut Vec<String>, req: &RecordRequest, encoder: VideoEncoderKind)
    ensures
        views(final(v)@) == views(old(v)@) + seq!["-vf"@, even_scale()] + encoder_args(
            encoder,
            crf_of(req.quality),
        ),
{
    push_str_item(v, "-vf");
    push_str_item(v, "scale=trunc(iw/2)*2:trunc(ih/2)*2");
    let ghost mid = views(v@);
    let enc = FfmpegEncoder::video_encoder_args(encoder, quality_to_crf(req.quality));
    append_items(v, enc);
    proof {
        assert(mid =~= views(old(v)@) + seq!["-vf"@, even_scale()]);
    }
}

fn push_av(v: &mut Vec<String>, req: &RecordRequest, encoder: VideoEncoderKind, pcm: &[PcmInputSpec])
    ensures
        views(final(v)@) == views(old(v)@) + av_args(*req, encoder, pcm@),
{
    let ghost start = views(v@);
    let ghost video = encoder_args(encoder, crf_of(req.quality));
    let n = pcm.len();
    if n > 1 {
        push_str_item(v, "-filter_complex");
        push_string_item(v, mix_graph_string(pcm, req));
        let ghost a = views(v@);
        if req.format == OutputFormat::AudioOnly {
            push_str_item(v, "-vn");
        } else {
            push_video(v, req, encoder);
            push_str_item(v, "-map");
            push_str_item(v, "0:v");
        }
        let ghost b = views(v@);
        push_str_item(v, "-map");
        push_str_item(v, "[aout]");
        let ghost c = views(v@);
        push_aac(v);
        proof {
            let mid = if req.format == OutputFormat::AudioOnly {
                seq!["-vn"@]
            } else {
                seq!["-vf"@, even_scale()] + video + seq!["-map"@, "0:v"@]
            };
            assert(b =~= a + mid);
            assert(c =~= b + seq!["-map"@, "[aout]"@]);
            assert(views(v@) =~= start + av_args(*req, encoder, pcm@));
        }
    } else if req.format == OutputFormat::AudioOnly {
        push_str_item(v, "-vf");
        push_str_item(v, "scale=trunc(iw/2)*2:trunc(ih/2)*2");
        push_str_item(v, "-vn");
        let ghost a = views(v@);
        push_single_audio(v, pcm, req);
        proof {
            assert(a =~= start + seq!["-vf"@, even_scale(), "-vn"@]);
            assert(views(v@) =~= start + av_args(*req, encoder, pcm@));
        }
    } else if n == 0 {
        push_video(v, req, encoder);
        push_str_item(v, "-an");
        proof {
            assert(views(v@) =~= start + av_args(*req, encoder, pcm@));
        }
    } else {
        push_video(v, req, encoder);
        push_str_item(v, "-map");
        push_str_item(v, "0:v");
        let ghost a = views(v@);
        push_single_audio(v, pcm, req);
        proof {
            assert(a =~= start + seq!["-vf"@, even_scale()] + video + seq!["-map"@, "0:v"@]);
            assert(views(v@) =~= start + av_args(*req, encoder, pcm@));
        }
    }
}

/// The FFmpeg command line of a recording on a desktop without the native
/// screen pump (see `build_record_args_on` for the pump's command line):
/// the `lavfi` placeholder, whatever the request, encoder and audio inputs.
pub fn build_record_args(
    req: &RecordRequest,
    encoder: VideoEncoderKind,
    pcm_inputs: &[PcmInputSpec],
) -> (r: Vec<String>)
    ensures
        views(r@) == placeholder_args(req.output_path@),
{
    let _ = (encoder, pcm_inputs);
    let mut args: Vec<String> = Vec::new();
    push_str_item(&mut args, "-y");
    push_str_item(&mut args, "-f");
    push_str_item(&mut args, "lavfi");
    push_str_item(&mut args, "-i");
    push_str_item(&mut args, "color=c=black:s=1280x720:r=30");
    push_str_item(&mut args, "-t");
    push_str_item(&mut args, "0.1");
    push_string_item(&mut args, req.output_path.clone());
    proof {
        assert(views(args@) =~= placeholder_args(req.output_path@));
    }
    args
}

/// The FFmpeg command line of a recording through the native screen pump
/// (frames on stdin, audio from the native PCM streams) when the virtual
/// desktop is `screen` (its size is the frame size of a recording without a
/// region).
pub fn build_record_args_on(
    req: &RecordRequest,
    encoder: VideoEncoderKind,
    pcm_inputs: &[PcmInputSpec],
    screen: &VirtualScreen,
) -> (r: Vec<String>)
    ensures
        views(r@) == record_args_on(*req, encoder, pcm_inputs@, screen.width, screen.height),
{
    let (out_w, out_h) = record_frame_size_on(req, screen);
    let mut args = prelude(out_w, out_h, req.fps);
    let mut k: usize = 0;
    while k < pcm_inputs.len()
        invariant
            k <= pcm_inputs@.len(),
            views(args@) == prelude_args(out_w, out_h, req.fps) + all_pcm_args(
                pcm_inputs@.take(k as int),
            ),
        decreases pcm_inputs@.len() - k,
    {
        let one = pcm_input_args(&pcm_inputs[k]);
        append_items(&mut args, one);
        proof {
            let t = pcm_inputs@.take(k + 1);
            assert(t.drop_last() == pcm_inputs@.take(k as int));
            assert(t.last() == pcm_inputs@[k as int]);
            assert(views(args@) =~= prelude_args(out_w, out_h, req.fps) + all_pcm_args(t));
        }
        k = k + 1;
    }
    proof {
        assert(pcm_inputs@.take(pcm_inputs@.len() as int) == pcm_inputs@);
    }
    let ghost head = views(args@);
    if req.format == OutputFormat::Gif {
        push_str_item(&mut args, "-filter_complex");
        let fps: u32 = if req.fps < 15 {
            req.fps
        } else {
            15
        };
        let mut graph: Vec<char> = Vec::new();
        extend_str(&mut graph, "[0:v]fps=");
        push_decimal(&mut graph, fps as u64);
        extend_str(
            &mut graph,
            ",scale=iw:-1:flags=lanczos,scale=trunc(iw/2)*2:trunc(ih/2)*2,split[s0][s1];[s0]palettegen[p];[s1][p]paletteuse",
        );
        push_string_item(&mut args, string_from(graph.as_slice()));
        push_str_item(&mut args, "-c:v");
        push_str_item(&mut args, "gif");
        push_string_item(&mut args, req.output_path.clone());
        proof {
            assert(graph@ =~= gif_graph(req.fps));
            assert(views(args@) =~= record_args_on(*req, encoder, pcm_inputs@, screen.width, screen.height));
        }
        return args;
    }
    push_av(&mut args, req, encoder, pcm_inputs);
    let ghost body = views(args@);
    push_str_item(&mut args, "-fps_mode");
    push_str_item(&mut args, "cfr");
    let ghost cfr = views(args@);
    if req.format == OutputFormat::Mp4 {
        push_str_item(&mut args, "-movflags");
        push_str_item(&mut args, "+frag_keyframe+empty_moov+default_base_moof");
    }
    let ghost flags = views(args@);
    push_string_item(&mut args, req.output_path.clone());
    proof {
        let mp4 = if req.format == OutputFormat::Mp4 {
            seq!["-movflags"@, fragmented_mp4_flags()]
        } else {
            seq![]
        };
        assert(cfr =~= body + seq!["-fps_mode"@, "cfr"@]);
        assert(flags =~= cfr + mp4);
        assert(views(args@) =~= record_args_on(*req, encoder, pcm_inputs@, screen.width, screen.height));
    }
    args
}

/// `a` directly followed by `b` somewhere in the argument list `s`.
pub open spec fn has_adjacent(s: Seq<Seq<char>>, a: Seq<char>, b: Seq<char>) -> bool {
    exists|i: int| 0 <= i && i + 1 < s.len() && #[trigger] s[i] == a && s[i + 1] == b
}

/// A video recording with audio maps the video pipe (input 0) explicitly:
/// once any `-map` is given FFmpeg writes only the mapped streams, so the
/// command line holds `-map 0:v`; several audio inputs are mapped through
/// the mix, `-map [aout]`.
pub proof fn lemma_video_mapped_with_audio(
    req: RecordRequest,
    enc: VideoEncoderKind,
    pcm: Seq<PcmInputSpec>,
    sw: u32,
    sh: u32,
)
    requires
        req.format != OutputFormat::Gif,
        req.format != OutputFormat::AudioOnly,
        pcm.len() >= 1,
    ensures
        has_adjacent(record_args_on(req, enc, pcm, sw, sh), "-map"@, "0:v"@),
        pcm.len() > 1 ==> has_adjacent(record_args_on(req, enc, pcm, sw, sh), "-map"@, "[aout]"@),
{
    let size = frame_size(req.region, sw, sh);
    let head = prelude_args(size.0, size.1, req.fps) + all_pcm_args(pcm);
    let video = encoder_args(enc, crf_of(req.quality));
    let args = record_args_on(req, enc, pcm, sw, sh);
    let av = av_args(req, enc, pcm);
    let mp4 = if req.format == OutputFormat::Mp4 {
        seq!["-movflags"@, fragmented_mp4_flags()]
    } else {
        seq![]
    };
    assert(args == head + av + seq!["-fps_mode"@, "cfr"@] + mp4 + seq![req.output_path@]);
    if pcm.len() > 1 {
        let pre = seq!["-filter_complex"@, mix_graph(pcm, req)] + seq!["-vf"@, even_scale()] + video;
        assert(av == pre + seq!["-map"@, "0:v"@] + seq!["-map"@, "[aout]"@] + aac_args());
        let k: int = pre.len() as int;
        let i: int = head.len() + k;
        assert(args[i] == av[k]);
        assert(args[i + 1] == av[k + 1]);
        assert(args[i + 2] == av[k + 2]);
        assert(args[i + 3] == av[k + 3]);
    } else {
        let pre = seq!["-vf"@, even_scale()] + video;
        assert(av == pre + seq!["-map"@, "0:v"@] + single_audio_args(pcm, req));
        let k: int = pre.len() as int;
        let i: int = head.len() + k;
        assert(args[i] == av[k]);
        assert(args[i + 1] == av[k + 1]);
    }
}

/// The output path is the last argument of every recording command line.
pub proof fn lemma_output_path_last(req: RecordRequest, enc: VideoEncoderKind, pcm: Seq<PcmInputSpec>, sw: u32, sh: u32)
    ensures
        record_args_on(req, enc, pcm, sw, sh).last() == req.output_path@,
{
}

/// An MP4 recording is written fragmented, so it stays playable when FFmpeg
/// is killed: its command line ends with the fragmented movflags before the
/// output path. A GIF recording ends with the GIF encoder.
pub proof fn lemma_mp4_fragmented(req: RecordRequest, enc: VideoEncoderKind, pcm: Seq<PcmInputSpec>, sw: u32, sh: u32)
    ensures
        ({
            let a = record_args_on(req, enc, pcm, sw, sh);
            &&& req.format == OutputFormat::Mp4 ==> a.len() >= 3 && a[a.len() - 3] == "-movflags"@
                && a[a.len() - 2] == fragmented_mp4_flags()
            &&& req.format == OutputFormat::Gif ==> a.len() >= 3 && a[a.len() - 3] == "-c:v"@ && a[a.len()
                - 2] == "gif"@
        }),
{
}

/// Each PCM input contributes its fourteen arguments, in input order.
pub proof fn lemma_pcm_inputs_in_order(pcm: Seq<PcmInputSpec>, k: int)
    requires
        0 <= k < pcm.len(),
    ensures
        all_pcm_args(pcm).len() == 14 * pcm.len(),
        all_pcm_args(pcm).subrange(14 * k, 14 * k + 14) == pcm_args(pcm[k]),
    decreases pcm.len(),
{
    let init = pcm.drop_last();
    if k < pcm.len() - 1 {
        lemma_pcm_inputs_in_order(init, k);
        assert(all_pcm_args(pcm).subrange(14 * k, 14 * k + 14) =~= all_pcm_args(init).subrange(
            14 * k,
            14 * k + 14,
        ));
    } else {
        if init.len() > 0 {
            lemma_pcm_inputs_in_order(init, 0);
        }
        assert(all_pcm_args(pcm).subrange(14 * k, 14 * k + 14) =~= pcm_args(pcm.last()));
    }
}

/// Higher quality never gives a larger CRF, and every CRF lies in 18..=51.
pub proof fn lemma_crf_monotone(a: u8, b: u8)
    requires
        a <= b,
    ensures
        crf_of(b) <= crf_of(a),
        18 <= crf_of(a) <= 51,
{
    let qa: int = if a < 1 { 1 } else if a > 100 { 100 } else { a as int };
    let qb: int = if b < 1 { 1 } else if b > 100 { 100 } else { b as int };
    assert(qa * 33 / 100 <= qb * 33 / 100) by (nonlinear_arith)
        requires
            1 <= qa <= qb <= 100,
    ;
    assert(qa * 33 / 100 <= 33) by (nonlinear_arith)
        requires
            1 <= qa <= 100,
    ;
}

/// The command that rewrites a fragmented recording (moved to `tmp`) into
/// a progressive MP4 at `path` with the index up front, copying streams.
pub open spec fn remux_args_spec(tmp: Seq<char>, path: Seq<char>) -> Seq<Seq<char>> {
    seq![
        "-y"@,
        "-hide_banner"@,
        "-loglevel"@,
        "error"@,
        "-i"@,
        tmp,
        "-c"@,
        "copy"@,
        "-movflags"@,
        "+faststart"@,
        path,
    ]
}

pub fn remux_args(tmp: &str, path: &str) -> (r: Vec<String>)
    ensures
        views(r@) == remux_args_spec(tmp@, path@),
{
    let mut v: Vec<String> = Vec::new();
    push_str_item(&mut v, "-y");
    push_str_item(&mut v, "-hide_banner");
    push_str_item(&mut v, "-loglevel");
    push_str_item(&mut v, "error");
    push_str_item(&mut v, "-i");
    push_str_item(&mut v, tmp);
    push_str_item(&mut v, "-c");
    push_str_item(&mut v, "copy");
    push_str_item(&mut v, "-movflags");
    push_str_item(&mut v, "+faststart");
    push_str_item(&mut v, path);
    proof {
        assert(views(v@) =~= remux_args_spec(tmp@, path@));
    }
    v
}

} // verus!
