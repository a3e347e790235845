//! Decisions of the localhost control plane: who may call it, which HTTP
//! status an error code gets, how a failed start is classified, and how a
//! request is turned into what the session records or captures.

use vstd::prelude::*;
use crate::capture::{window_by_id, CaptureError, CaptureTarget, WindowInfo};
use crate::encode::{contains, encoder_name, VideoEncoderKind};
use crate::ffmpeg_args::RecordRequest;
use crate::ipc::{DoctorInfo, RecordStartRequest, ShotRequest};
use crate::envelope::Envelope;
use crate::metrics::MetricsSnapshot;
use crate::settings::{OutputFormat, Region, VideoSourceKind};
use crate::text::{
    decimal, extend_str, push_decimal, string_from,
    chars_of, extend_range, find_from, find_pattern, has_prefix, lower, lowercase_chars, owned,
    same_chars, starts_with_chars,
};

verus! {

/// The token an `Authorization` header value carries: what follows
/// `"Bearer "`, if it starts so.
pub open spec fn bearer_token(header: Seq<char>) -> Option<Seq<char>> {
    if has_prefix(header, "Bearer "@) {
        Some(header.skip("Bearer "@.len() as int))
    } else {
        None
    }
}

/// A request is authorised when its `Authorization` header is
/// `Bearer <token>` with exactly the expected token.
pub open spec fn authorized(header: Option<Seq<char>>, expected: Seq<char>) -> bool {
    match header {
        Some(h) => bearer_token(h) == Some(expected),
        None => false,
    }
}

/// Whether a request whose `Authorization` header reads `authorization`
/// (`None` when absent or not visible ASCII) may use the control plane.
pub fn check_auth(authorization: Option<&str>, expected: &str) -> (r: bool)
    ensures
        r == authorized(
            match authorization {
                Some(h) => Some(h@),
                None => None,
            },
            expected@,
        ),
{
    match authorization {
        None => false,
        Some(h) => {
            let hs = chars_of(h);
            let scheme = chars_of("Bearer ");
            if !starts_with_chars(hs.as_slice(), scheme.as_slice()) {
                return false;
            }
            let mut token: Vec<char> = Vec::new();
            extend_range(&mut token, hs.as_slice(), scheme.len(), hs.len());
            let want = chars_of(expected);
            let same = same_chars(token.as_slice(), want.as_slice());
            proof {
                assert(hs@.subrange(scheme@.len() as int, hs@.len() as int) == hs@.skip(
                    scheme@.len() as int,
                ));
            }
            same
        },
    }
}

/// The HTTP status of an error reply with `code`.
pub open spec fn status_of(code: Seq<char>) -> u16 {
    if code == "stateConflict"@ {
        409
    } else if code == "notFound"@ {
        404
    } else if code == "badRequest"@ {
        400
    } else {
        500
    }
}

fn is(code: &[char], lit: &str) -> (r: bool)
    ensures
        r == (code@ == lit@),
{
    let l = chars_of(lit);
    same_chars(code, l.as_slice())
}

pub fn status_for_code(code: &str) -> (r: u16)
    ensures
        r == status_of(code@),
{
    let c = chars_of(code);
    if is(c.as_slice(), "stateConflict") {
        409
    } else if is(c.as_slice(), "notFound") {
        404
    } else if is(c.as_slice(), "badRequest") {
        400
    } else {
        500
    }
}

/// The HTTP status of a refused bearer token.
pub const UNAUTHORIZED_STATUS: u16 = 401;

/// The reply to a request without the right bearer token.
pub fn unauthorized() -> (r: (u16, Envelope<()>))
    ensures
        r.0 == 401,
        !r.1.ok && r.1.data is None,
        r.1.error matches Some(e) && e.code@ == "unauthorized"@ && e.message@
            == "invalid or missing bearer token"@,
{
    (UNAUTHORIZED_STATUS, Envelope::<()>::err("unauthorized", "invalid or missing bearer token"))
}

/// The reply to a failed request: the status of its error code and an
/// error envelope with the code and message.
pub fn map_err(code: &str, e: String) -> (r: (u16, Envelope<()>))
    ensures
        r.0 == status_of(code@),
        !r.1.ok && r.1.data is None,
        r.1.error matches Some(a) && a.code@ == code@ && a.message@ == e@,
{
    (status_for_code(code), Envelope::<()>::err(code, e.as_str()))
}

/// The reply to a metrics request: the snapshot when the metrics flag is
/// on, else not found.
pub fn metrics_reply(enabled: bool, snapshot: MetricsSnapshot) -> (r: Result<Envelope<MetricsSnapshot>, (u16, Envelope<()>)>)
    ensures
        enabled ==> (r matches Ok(env) && env.ok && env.data == Some(snapshot) && env.error is None),
        !enabled ==> (r matches Err((status, env)) && status == 404 && !env.ok && env.data is None
            && (env.error matches Some(a) && a.code@ == "notFound"@ && a.message@
            == "metrics disabled by feature flag"@)),
{
    if enabled {
        Ok(Envelope::ok(snapshot))
    } else {
        Err((404, Envelope::<()>::err("notFound", "metrics disabled by feature flag")))
    }
}

/// The error code of a failed start: a state conflict when the message
/// says the state was invalid or something was already so, an encoder
/// problem when it mentions ffmpeg or encoding (in any case), else a
/// capture problem. Case is folded on ASCII letters; the two words sought
/// hold no letter that a non-ASCII character folds to.
pub open spec fn start_error_kind(message: Seq<char>) -> Seq<char> {
    if contains(message, "invalid state"@) || contains(message, "already"@) {
        "stateConflict"@
    } else if contains(lower(message), "ffmpeg"@) || contains(lower(message), "encode"@) {
        "encode"@
    } else {
        "capture"@
    }
}

fn has(s: &[char], lit: &str) -> (r: bool)
    ensures
        r == contains(s@, lit@),
{
    let p = chars_of(lit);
    find_pattern(s, p.as_slice(), 0).is_some()
}

pub fn start_error_code(message: &str) -> (r: &'static str)
    ensures
        r@ == start_error_kind(message@),
{
    let m = chars_of(message);
    if has(m.as_slice(), "invalid state") || has(m.as_slice(), "already") {
        return "stateConflict";
    }
    let low = lowercase_chars(m.as_slice());
    if has(low.as_slice(), "ffmpeg") || has(low.as_slice(), "encode") {
        "encode"
    } else {
        "capture"
    }
}

/// The region a capture falls back to or is given.
pub open spec fn region_target(r: Region) -> CaptureTarget {
    CaptureTarget::Region { x: r.x, y: r.y, width: r.width, height: r.height }
}

/// Where a screenshot request points, given the window it names as found
/// (`None` when gone or when it names none).
pub open spec fn shot_target(args: ShotRequest, found: Option<(i32, i32, u32, u32)>) -> Result<CaptureTarget, Seq<char>> {
    match args.source {
        VideoSourceKind::Display => Ok(
            CaptureTarget::Display { id: if args.display_id is Some { args.display_id->0 } else { 0 } },
        ),
        VideoSourceKind::Window => if args.window_id is None {
            Err("windowId required"@)
        } else {
            match found {
                Some((x, y, w, h)) => Ok(
                    CaptureTarget::Region {
                        x,
                        y,
                        width: if w < 2 { 2 } else { w },
                        height: if h < 2 { 2 } else { h },
                    },
                ),
                None => match args.region {
                    Some(r) => Ok(region_target(r)),
                    None => Err("selected window is gone — pick it again"@),
                },
            }
        },
        VideoSourceKind::Region => match args.region {
            Some(r) => Ok(region_target(r)),
            None => Err("region required"@),
        },
    }
}

/// The window's rectangle.
pub open spec fn window_rect(w: WindowInfo) -> (i32, i32, u32, u32) {
    (w.x, w.y, w.width, w.height)
}

/// The result of a screenshot target, its error as text.
pub open spec fn target_view(r: Result<CaptureTarget, String>) -> Result<CaptureTarget, Seq<char>> {
    match r {
        Ok(t) => Ok(t),
        Err(e) => Err(e@),
    }
}

/// Where a screenshot request points once its window was looked up.
pub fn capture_target_found(args: &ShotRequest, found: Option<&WindowInfo>) -> (r: Result<CaptureTarget, String>)
    ensures
        target_view(r) == shot_target(
            *args,
            match found {
                Some(w) => Some(window_rect(*w)),
                None => None,
            },
        ),
{
    match args.source {
        VideoSourceKind::Display => Ok(
            CaptureTarget::Display {
                id: match args.display_id {
                    Some(id) => id,
                    None => 0,
                },
            },
        ),
        VideoSourceKind::Window => {
            if args.window_id.is_none() {
                return Err(owned("windowId required"));
            }
            match found {
                Some(w) => Ok(
                    CaptureTarget::Region {
                        x: w.x,
                        y: w.y,
                        width: if w.width < 2 {
                            2
                        } else {
                            w.width
                        },
                        height: if w.height < 2 {
                            2
                        } else {
                            w.height
                        },
                    },
                ),
                None => match args.region {
                    Some(r) => Ok(
                        CaptureTarget::Region { x: r.x, y: r.y, width: r.width, height: r.height },
                    ),
                    None => Err(owned("selected window is gone — pick it again")),
                },
            }
        },
        VideoSourceKind::Region => match args.region {
            Some(r) => Ok(CaptureTarget::Region { x: r.x, y: r.y, width: r.width, height: r.height }),
            None => Err(owned("region required")),
        },
    }
}

/// Where a screenshot request points: the display (0 unless named), the
/// named window's rectangle (each edge at least 2; the request's region
/// when the window is gone), or the named region. No window is found
/// without a native window API, so a window request falls back to its
/// region.
pub fn capture_target(args: &ShotRequest) -> (r: Result<CaptureTarget, String>)
    ensures
        target_view(r) == shot_target(*args, None),
{
    match args.source {
        VideoSourceKind::Window => match args.window_id {
            None => capture_target_found(args, None),
            Some(id) => match window_by_id(id) {
                Err(e) => Err(e.message()),
                Ok(found) => match found {
                    Some(w) => capture_target_found(args, Some(&w)),
                    None => capture_target_found(args, None),
                },
            },
        },
        _ => capture_target_found(args, None),
    }
}

/// What the settings supply when a start request leaves a choice open.
#[derive(Debug)]
pub struct RecordDefaults {
    pub source: VideoSourceKind,
    pub display_id: Option<u32>,
    pub window_id: Option<u32>,
    pub region: Option<Region>,
    pub include_cursor: bool,
    pub mic_device: Option<String>,
    pub loopback_device: Option<String>,
    pub mic_volume: u8,
    pub loopback_volume: u8,
    pub preferred_encoder: Option<VideoEncoderKind>,
    pub output_format: OutputFormat,
    pub fps: u32,
    pub quality: u8,
    pub hide_app_while_recording: bool,
}

pub open spec fn or_else<T>(a: Option<T>, b: T) -> T {
    match a {
        Some(v) => v,
        None => b,
    }
}

pub open spec fn or_opt<T>(a: Option<T>, b: Option<T>) -> Option<T> {
    if a is Some {
        a
    } else {
        b
    }
}

pub open spec fn cap_volume(v: u8) -> u8 {
    if v > 200 {
        200
    } else {
        v
    }
}

pub open spec fn clamp_quality(q: u8) -> u8 {
    if q < 1 {
        1
    } else if q > 100 {
        100
    } else {
        q
    }
}

/// The output format a start request records in.
pub open spec fn start_format(args: RecordStartRequest, d: RecordDefaults) -> OutputFormat {
    or_else(args.format, d.output_format)
}

/// The recording a start request asks for: each open choice taken from
/// the settings, volumes capped at 200 and quality kept in 1..=100.
pub open spec fn merged_request(args: RecordStartRequest, d: RecordDefaults, out: RecordRequest) -> bool {
    &&& out.source == args.source
    &&& out.display_id == or_opt(args.display_id, d.display_id)
    &&& out.window_id == args.window_id
    &&& out.region == or_opt(args.region, d.region)
    &&& out.include_cursor == or_else(args.include_cursor, d.include_cursor)
    &&& out.mic_device == args.mic_device
    &&& out.loopback_device == args.loopback_device
    &&& out.mic_volume == cap_volume(or_else(args.mic_volume, d.mic_volume))
    &&& out.loopback_volume == cap_volume(or_else(args.loopback_volume, d.loopback_volume))
    &&& out.encoder == or_opt(args.encoder, d.preferred_encoder)
    &&& out.format == start_format(args, d)
    &&& out.fps == or_else(args.fps, d.fps)
    &&& out.quality == clamp_quality(or_else(args.quality, d.quality))
    &&& out.hide_app_while_recording == d.hide_app_while_recording
}

fn pick<T: Copy>(a: Option<T>, b: T) -> (r: T)
    ensures
        r == or_else(a, b),
{
    match a {
        Some(v) => v,
        None => b,
    }
}

fn pick_opt<T: Copy>(a: Option<T>, b: Option<T>) -> (r: Option<T>)
    ensures
        r == or_opt(a, b),
{
    if a.is_some() {
        a
    } else {
        b
    }
}

/// The recording a start request asks for, written to `output_path`.
pub fn record_request_for(args: RecordStartRequest, defaults: &RecordDefaults, output_path: String) -> (r: RecordRequest)
    ensures
        merged_request(args, *defaults, r),
        r.output_path == output_path,
{
    let mic = pick(args.mic_volume, defaults.mic_volume);
    let lb = pick(args.loopback_volume, defaults.loopback_volume);
    let q = pick(args.quality, defaults.quality);
    RecordRequest {
        source: args.source,
        display_id: pick_opt(args.display_id, defaults.display_id),
        window_id: args.window_id,
        region: pick_opt(args.region, defaults.region),
        include_cursor: pick(args.include_cursor, defaults.include_cursor),
        mic_device: args.mic_device,
        loopback_device: args.loopback_device,
        mic_volume: if mic > 200 {
            200
        } else {
            mic
        },
        loopback_volume: if lb > 200 {
            200
        } else {
            lb
        },
        encoder: pick_opt(args.encoder, defaults.preferred_encoder),
        format: pick(args.format, defaults.output_format),
        fps: pick(args.fps, defaults.fps),
        quality: if q < 1 {
            1
        } else if q > 100 {
            100
        } else {
            q
        },
        output_path,
        hide_app_while_recording: defaults.hide_app_while_recording,
    }
}

/// How many recent outputs are listed when the request names no limit.
pub open spec fn outputs_limit(limit: Option<usize>) -> usize {
    or_else(limit, 20)
}

pub fn recent_limit(limit: Option<usize>) -> (r: usize)
    ensures
        r == outputs_limit(limit),
{
    pick(limit, 20)
}

/// The counter a reply with `status` is counted under:
/// `http_status_<status>`.
pub open spec fn status_metric(status: u16) -> Seq<char> {
    "http_status_"@ + decimal(status as nat)
}

pub fn status_metric_name(status: u16) -> (r: String)
    ensures
        r@ == status_metric(status),
{
    let mut out = chars_of("http_status_");
    push_decimal(&mut out, status as u64);
    string_from(out.as_slice())
}

/// The breadcrumb a control-plane request leaves:
/// `<method> <path> -> <status>` (never its query, headers or body).
pub open spec fn request_crumb(method: Seq<char>, path: Seq<char>, status: u16) -> Seq<char> {
    method + seq![' '] + path + " -> "@ + decimal(status as nat)
}

pub fn request_breadcrumb(method: &str, path: &str, status: u16) -> (r: String)
    ensures
        r@ == request_crumb(method@, path@, status),
{
    let mut out = chars_of(method);
    out.push(' ');
    extend_str(&mut out, path);
    extend_str(&mut out, " -> ");
    push_decimal(&mut out, status as u64);
    proof {
        assert(out@ =~= request_crumb(method@, path@, status));
    }
    string_from(out.as_slice())
}

/// The request id a reply carries: the caller's, when it sent a non-empty
/// one, else a fresh one.
pub fn request_id_for(header: Option<&str>, fresh: String) -> (r: String)
    ensures
        r@ == match header {
            Some(h) => if h@.len() > 0 { h@ } else { fresh@ },
            None => fresh@,
        },
{
    match header {
        Some(h) => {
            let hs = chars_of(h);
            if hs.len() > 0 {
                owned(h)
            } else {
                fresh
            }
        },
        None => fresh,
    }
}

fn clone_opt_string(s: &Option<String>) -> (r: Option<String>)
    ensures
        r == *s,
{
    match s {
        Some(v) => Some(v.clone()),
        None => None,
    }
}

/// A start request that spells out every saved setting (the display 0
/// when none is saved).
pub fn default_start_from_settings(d: &RecordDefaults) -> (r: RecordStartRequest)
    ensures
        r.source == d.source,
        r.display_id == Some(if d.display_id is Some { d.display_id->0 } else { 0u32 }),
        r.window_id == d.window_id,
        r.region == d.region,
        r.include_cursor == Some(d.include_cursor),
        r.mic_device == d.mic_device,
        r.loopback_device == d.loopback_device,
        r.mic_volume == Some(d.mic_volume),
        r.loopback_volume == Some(d.loopback_volume),
        r.encoder == d.preferred_encoder,
        r.format == Some(d.output_format),
        r.fps == Some(d.fps),
        r.quality == Some(d.quality),
{
    RecordStartRequest {
        source: d.source,
        display_id: Some(pick(d.display_id, 0)),
        window_id: d.window_id,
        region: d.region,
        include_cursor: Some(d.include_cursor),
        mic_device: clone_opt_string(&d.mic_device),
        loopback_device: clone_opt_string(&d.loopback_device),
        mic_volume: Some(d.mic_volume),
        loopback_volume: Some(d.loopback_volume),
        encoder: d.preferred_encoder,
        format: Some(d.output_format),
        fps: Some(d.fps),
        quality: Some(d.quality),
    }
}

/// What `doctor` reports: the running desktop's platform and capture
/// backend, the bundled ffmpeg (and whether it really runs), the control
/// plane's process and port, and the preferred encoder's FFmpeg name.
pub fn doctor_info(
    os: &str,
    capture_backend: &str,
    ffmpeg_path: Option<String>,
    ffmpeg_ok: bool,
    pid: u32,
    port: u16,
    preferred: Option<VideoEncoderKind>,
) -> (r: DoctorInfo)
    ensures
        r.os@ == os@,
        r.capture_backend@ == capture_backend@,
        r.ffmpeg_path == ffmpeg_path,
        r.ffmpeg_ok == ffmpeg_ok,
        r.control_plane,
        r.pid == pid,
        r.port == port,
        match preferred {
            Some(k) => r.preferred_encoder matches Some(n) && n@ == encoder_name(k),
            None => r.preferred_encoder is None,
        },
{
    DoctorInfo {
        os: owned(os),
        capture_backend: owned(capture_backend),
        ffmpeg_path,
        ffmpeg_ok,
        control_plane: true,
        pid,
        port,
        preferred_encoder: match preferred {
            Some(k) => Some(owned(k.ffmpeg_name())),
            None => None,
        },
    }
}

} // verus!
