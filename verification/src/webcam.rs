//! Webcams: frame formats YUY2 (packed 4:2:2) and NV12 (planar 4:2:0) to
//! BGRA, the packed frame size and rate that Media Foundation reports, the
//! slot holding the latest frame, and the preview camera (Media Foundation
//! is Windows-only, so no camera opens here).

use vstd::prelude::*;
use crate::capture::{CaptureError, Frame};

verus! {

/// `x` divided by 256, rounded down (an arithmetic shift right by 8).
pub open spec fn floor_256(x: int) -> int {
    x / 256
}

/// `v` clamped into 0..=255.
pub open spec fn clamp_byte(v: int) -> u8 {
    if v < 0 {
        0
    } else if v > 255 {
        255
    } else {
        v as u8
    }
}

/// The (blue, green, red) of a YUV sample, `u` and `v` centred on 0, in
/// fixed point with 8 fractional bits.
pub open spec fn yuv_bgr(y: int, u: int, v: int) -> (u8, u8, u8) {
    let r = y + floor_256(359 * v);
    let g = y - floor_256(88 * u + 183 * v);
    let b = y + floor_256(454 * u);
    (clamp_byte(b), clamp_byte(g), clamp_byte(r))
}

fn shr8(x: i32) -> (r: i32)
    ensures
        r == floor_256(x as int),
{
    if x >= 0 {
        (x as u32 / 256) as i32
    } else {
        let a: u32 = (-(x as i64)) as u32;
        -(((a as u64 + 255) / 256) as i32)
    }
}

fn clamp_u8(v: i32) -> (r: u8)
    ensures
        r == clamp_byte(v as int),
{
    if v < 0 {
        0
    } else if v > 255 {
        255
    } else {
        v as u8
    }
}

/// The (blue, green, red) bytes of a YUV sample.
pub fn yuv_to_bgr(y: i32, u: i32, v: i32) -> (r: (u8, u8, u8))
    requires
        0 <= y <= 255,
        -128 <= u <= 127,
        -128 <= v <= 127,
    ensures
        r == yuv_bgr(y as int, u as int, v as int),
{
    let r = y + shr8(359 * v);
    let g = y - shr8(88 * u + 183 * v);
    let b = y + shr8(454 * u);
    (clamp_u8(b), clamp_u8(g), clamp_u8(r))
}

/// Byte `j` of the BGRA image decoded from a `w`-wide YUY2 buffer: each
/// pair of pixels shares one U and one V sample (bytes Y0 U Y1 V); alpha
/// is opaque; a last odd column is left black and transparent.
pub open spec fn yuy2_byte(src: Seq<u8>, w: int, j: int) -> u8 {
    let p = j / 4;
    let row = p / w;
    let col = p % w;
    if col / 2 < w / 2 {
        let i = row * w * 2 + (col / 2) * 4;
        let yv = src[i + (col % 2) * 2] as int;
        let bgr = yuv_bgr(yv, src[i + 1] - 128, src[i + 3] - 128);
        if j % 4 == 0 {
            bgr.0
        } else if j % 4 == 1 {
            bgr.1
        } else if j % 4 == 2 {
            bgr.2
        } else {
            255
        }
    } else {
        0
    }
}

pub open spec fn yuy2_decoded(src: Seq<u8>, w: int, h: int) -> Seq<u8> {
    Seq::new((w * h * 4) as nat, |j: int| yuy2_byte(src, w, j))
}

/// Decode a `width`x`height` YUY2 buffer into BGRA; none when the buffer
/// is too short or the image narrower than 2 pixels.
pub fn yuy2_to_bgra(src: &[u8], width: u32, height: u32) -> (r: Option<Vec<u8>>)
    requires
        width as int * height as int * 4 <= u32::MAX,
    ensures
        match r {
            None => src@.len() < width as int * height as int * 2 || width < 2,
            Some(out) => src@.len() >= width as int * height as int * 2 && width >= 2 && out@
                == yuy2_decoded(src@, width as int, height as int),
        },
{
    let needed = (width as usize) * (height as usize) * 2;
    if src.len() < needed || width < 2 {
        return None;
    }
    let n = (width as usize) * (height as usize) * 4;
    let w = width as usize;
    let mut out: Vec<u8> = Vec::new();
    let mut j: usize = 0;
    while j < n
        invariant
            n == width as int * height as int * 4,
            needed == width as int * height as int * 2,
            src@.len() >= needed,
            w == width,
            width >= 2,
            j <= n,
            out@ == yuy2_decoded(src@, width as int, height as int).take(j as int),
        decreases n - j,
    {
        let p = j / 4;
        let row = p / w;
        let col = p % w;
        let v: u8;
        proof {
            crate::pixels::lemma_row_col(p as int, w as int, height as int);
        }
        if col / 2 < w / 2 {
            proof {
                assert(row * w * 2 + (col / 2) * 4 + 3 < w * height * 2) by (nonlinear_arith)
                    requires
                        row < height,
                        col / 2 < w / 2,
                        w >= 2,
                ;
            }
            let i = row * w * 2 + (col / 2) * 4;
            let yv = src[i + (col % 2) * 2] as i32;
            let bgr = yuv_to_bgr(yv, src[i + 1] as i32 - 128, src[i + 3] as i32 - 128);
            v = if j % 4 == 0 {
                bgr.0
            } else if j % 4 == 1 {
                bgr.1
            } else if j % 4 == 2 {
                bgr.2
            } else {
                255
            };
        } else {
            v = 0;
        }
        proof {
            assert(v == yuy2_byte(src@, width as int, j as int));
            assert(out@.push(v) =~= yuy2_decoded(src@, width as int, height as int).take(j + 1));
        }
        out.push(v);
        j = j + 1;
    }
    proof {
        assert(yuy2_decoded(src@, width as int, height as int).take(n as int) =~= yuy2_decoded(
            src@,
            width as int,
            height as int,
        ));
    }
    Some(out)
}

/// The bytes an NV12 image of `w`x`h` pixels takes: a full-size luma
/// plane followed by an interleaved U/V plane of half the size.
pub open spec fn nv12_len(w: int, h: int) -> int {
    w * h + (w * h) / 2
}

/// Byte `j` of the BGRA image decoded from a `w`x`h` NV12 buffer: each
/// pixel takes its own luma sample and the U/V pair of its 2x2 block;
/// alpha is opaque.
pub open spec fn nv12_byte(src: Seq<u8>, w: int, h: int, j: int) -> u8 {
    let p = j / 4;
    let row = p / w;
    let col = p % w;
    let uv = w * h + (row / 2) * w + (col - col % 2);
    let bgr = yuv_bgr(src[row * w + col] as int, src[uv] - 128, src[uv + 1] - 128);
    if j % 4 == 0 {
        bgr.0
    } else if j % 4 == 1 {
        bgr.1
    } else if j % 4 == 2 {
        bgr.2
    } else {
        255
    }
}

pub open spec fn nv12_decoded(src: Seq<u8>, w: int, h: int) -> Seq<u8> {
    Seq::new((w * h * 4) as nat, |j: int| nv12_byte(src, w, h, j))
}

/// Where a pixel's U/V pair lies, for even sides: inside the buffer.
proof fn lemma_nv12_uv_in_bounds(row: int, col: int, w: int, h: int)
    requires
        0 <= row < h,
        0 <= col < w,
        w >= 2,
        h >= 2,
        w % 2 == 0,
        h % 2 == 0,
    ensures
        row * w + col < w * h,
        w * h + (row / 2) * w + (col - col % 2) + 1 < nv12_len(w, h),
{
    let hh = h / 2;
    assert(h == 2 * hh);
    assert(row / 2 <= hh - 1);
    assert((row / 2) * w <= (hh - 1) * w) by (nonlinear_arith)
        requires
            row / 2 <= hh - 1,
            w >= 0,
    ;
    assert(w * h == 2 * (hh * w)) by (nonlinear_arith)
        requires
            h == 2 * hh,
    ;
    assert((w * h) / 2 == hh * w);
    assert((hh - 1) * w == hh * w - w) by (nonlinear_arith);
    assert(col - col % 2 <= w - 2);
    assert(row * w + col < w * h) by (nonlinear_arith)
        requires
            0 <= row < h,
            0 <= col < w,
    ;
}

/// Decode a `width`x`height` NV12 buffer into BGRA; none when the buffer
/// is too short or a side is under 2 pixels. Sides are even on the inputs
/// this is called with: with an odd side the last U/V pair would lie past
/// the end of the image.
pub fn nv12_to_bgra(src: &[u8], width: u32, height: u32) -> (r: Option<Vec<u8>>)
    requires
        width as int * height as int * 4 <= u32::MAX,
        src@.len() >= nv12_len(width as int, height as int) && width >= 2 && height >= 2 ==> width
            % 2 == 0 && height % 2 == 0,
    ensures
        match r {
            None => src@.len() < nv12_len(width as int, height as int) || width < 2 || height < 2,
            Some(out) => src@.len() >= nv12_len(width as int, height as int) && width >= 2 && height
                >= 2 && out@ == nv12_decoded(src@, width as int, height as int),
        },
{
    let y_size = (width as usize) * (height as usize);
    let needed = y_size + y_size / 2;
    if src.len() < needed || width < 2 || height < 2 {
        return None;
    }
    let n = y_size * 4;
    let w = width as usize;
    let h = height as usize;
    let mut out: Vec<u8> = Vec::new();
    let mut j: usize = 0;
    while j < n
        invariant
            n == width as int * height as int * 4,
            y_size == width as int * height as int,
            src@.len() >= nv12_len(width as int, height as int),
            w == width,
            h == height,
            width >= 2,
            height >= 2,
            width % 2 == 0,
            height % 2 == 0,
            j <= n,
            out@ == nv12_decoded(src@, width as int, height as int).take(j as int),
        decreases n - j,
    {
        let p = j / 4;
        let row = p / w;
        let col = p % w;
        proof {
            crate::pixels::lemma_row_col(p as int, w as int, h as int);
            lemma_nv12_uv_in_bounds(row as int, col as int, w as int, h as int);
        }
        let uv = y_size + (row / 2) * w + (col - col % 2);
        let bgr = yuv_to_bgr(src[row * w + col] as i32, src[uv] as i32 - 128, src[uv + 1] as i32 - 128);
        let v: u8 = if j % 4 == 0 {
            bgr.0
        } else if j % 4 == 1 {
            bgr.1
        } else if j % 4 == 2 {
            bgr.2
        } else {
            255
        };
        proof {
            assert(v == nv12_byte(src@, width as int, height as int, j as int));
            assert(out@.push(v) =~= nv12_decoded(src@, width as int, height as int).take(j + 1));
        }
        out.push(v);
        j = j + 1;
    }
    proof {
        assert(nv12_decoded(src@, width as int, height as int).take(n as int) =~= nv12_decoded(
            src@,
            width as int,
            height as int,
        ));
    }
    Some(out)
}

/// A frame size packed as width in the high 32 bits, height in the low 32
/// bits; none when either is under 2.
pub open spec fn unpacked_size(packed: u64) -> Option<(u32, u32)> {
    let w = packed / 0x1_0000_0000;
    let h = packed % 0x1_0000_0000;
    if w < 2 || h < 2 {
        None
    } else {
        Some((w as u32, h as u32))
    }
}

pub fn unpack_frame_size(packed: u64) -> (r: Option<(u32, u32)>)
    ensures
        r == unpacked_size(packed),
{
    let w = (packed / 0x1_0000_0000) as u32;
    let h = (packed % 0x1_0000_0000) as u32;
    if w < 2 || h < 2 {
        None
    } else {
        Some((w, h))
    }
}

/// A frame rate packed as numerator in the high 32 bits, denominator in the
/// low 32 bits; 30/1 when absent or with a zero denominator.
pub open spec fn unpacked_rate(packed: Option<u64>) -> (u32, u32) {
    match packed {
        Some(p) => if p % 0x1_0000_0000 > 0 {
            ((p / 0x1_0000_0000) as u32, (p % 0x1_0000_0000) as u32)
        } else {
            (30, 1)
        },
        None => (30, 1),
    }
}

pub fn unpack_frame_rate(packed: Option<u64>) -> (r: (u32, u32))
    ensures
        r == unpacked_rate(packed),
{
    match packed {
        Some(p) => {
            let num = (p / 0x1_0000_0000) as u32;
            let den = (p % 0x1_0000_0000) as u32;
            if den > 0 {
                (num, den)
            } else {
                (30, 1)
            }
        },
        None => (30, 1),
    }
}

/// A webcam: a stable id for selection (the Media Foundation symbolic
/// link) and its name.
#[derive(Debug, Clone)]
pub struct WebcamInfo {
    pub id: String,
    pub name: String,
}

/// Enumerate webcams; the Media Foundation source is Windows-only, so none
/// are listed here.
pub fn list_webcams() -> (r: Result<Vec<WebcamInfo>, CaptureError>)
    ensures
        r matches Ok(v) && v@.len() == 0,
{
    Ok(Vec::new())
}

/// The latest webcam frame, read by preview and by the recording pump.
pub struct WebcamFrameSlot {
    frame: Option<Frame>,
}

impl WebcamFrameSlot {
    /// The frame the slot holds.
    pub closed spec fn held(&self) -> Option<Frame> {
        self.frame
    }

    /// An empty slot.
    pub fn new() -> (r: Self)
        ensures
            r.held() is None,
    {
        WebcamFrameSlot { frame: None }
    }

    /// Keep `frame` as the latest, replacing the one held.
    pub fn store(&mut self, frame: Frame)
        ensures
            final(self).held() == Some(frame),
    {
        self.frame = Some(frame);
    }

    /// The latest stored frame, none after `clear` or before any `store`.
    pub fn latest(&self) -> (r: Option<&Frame>)
        ensures
            match self.held() {
                Some(f) => r matches Some(g) && *g == f,
                None => r is None,
            },
    {
        match &self.frame {
            Some(f) => Some(f),
            None => None,
        }
    }

    /// Drop the held frame.
    pub fn clear(&mut self)
        ensures
            final(self).held() is None,
    {
        self.frame = None;
    }
}

impl Default for WebcamFrameSlot {
    fn default() -> (r: Self)
        ensures
            r.held() is None,
    {
        WebcamFrameSlot::new()
    }
}

/// Whether a running preview camera with id `current` serves a request for
/// `wanted`: with no device asked for, any camera with an id does; else the
/// ids must be equal.
pub open spec fn serves_request(current: Seq<char>, wanted: Option<Seq<char>>) -> bool {
    let want = match wanted {
        Some(w) => w,
        None => Seq::<char>::empty(),
    };
    if want.len() == 0 {
        current.len() > 0
    } else {
        current == want
    }
}

/// Whether the preview camera (if one runs, with its id) is kept for a
/// request for `wanted` rather than reopened.
pub fn reuses_preview_camera(current: Option<&str>, wanted: Option<&str>) -> (r: bool)
    ensures
        r == match current {
            Some(c) => serves_request(c@, match wanted {
                Some(w) => Some(w@),
                None => None,
            }),
            None => false,
        },
{
    match current {
        None => false,
        Some(c) => {
            let want: &str = match wanted {
                Some(w) => w,
                None => "",
            };
            let cs = crate::text::chars_of(c);
            let ws = crate::text::chars_of(want);
            proof {
                reveal_strlit("");
            }
            if ws.len() == 0 {
                cs.len() > 0
            } else {
                crate::text::same_chars(&cs, &ws)
            }
        },
    }
}

/// Make sure the preview camera runs and hand out its frame slot. The
/// Media Foundation reader is Windows-only, so no camera starts here.
pub fn ensure_preview_webcam(device_id: Option<&str>, target_w: u32, target_h: u32) -> (r: Result<WebcamFrameSlot, CaptureError>)
    ensures
        r matches Err(CaptureError::Unsupported(m)) && m@ == "webcam capture is Windows-only"@,
{
    Err(CaptureError::Unsupported("webcam capture is Windows-only"))
}

/// The frame slot of the running preview camera: none runs here.
pub fn preview_webcam_slot() -> (r: Option<WebcamFrameSlot>)
    ensures
        r is None,
{
    None
}

/// Stop the preview camera, if one runs (none does here).
pub fn release_preview_webcam() {
}

/// The pixel formats a webcam media type is read in.
#[derive(Debug, Clone, Copy, PartialEq, Eq, Structural)]
pub enum CamFormat {
    Yuy2,
    Nv12,
    Rgb32,
}

/// `v` clamped into `lo..=hi`.
pub open spec fn clamp_int(v: int, lo: int, hi: int) -> int {
    if v < lo {
        lo
    } else if v > hi {
        hi
    } else {
        v
    }
}

/// The camera size aimed at for a `target_w`x`target_h` picture: twice the
/// target, within 640..=1280 by 480..=720.
pub open spec fn ideal_size(target_w: u32, target_h: u32) -> (int, int) {
    (clamp_int(2 * target_w, 640, 1280), clamp_int(2 * target_h, 480, 720))
}

/// Whole frames per second of a rate `n / d` (0 for a zero denominator).
pub open spec fn fps_of(n: u32, d: u32) -> int {
    if d == 0 {
        0
    } else {
        n as int / d as int
    }
}

/// How much a frame rate is worth: at least 24 is preferred heavily, 30
/// is the sweet spot.
pub open spec fn fps_score(fps: int) -> int {
    if fps >= 28 {
        fps * 2000
    } else if fps >= 24 {
        fps * 1500
    } else if fps >= 15 {
        fps * 400
    } else {
        fps * 50 - 30000
    }
}

/// How much a pixel format is worth: YUY2, then NV12, then RGB32.
pub open spec fn format_bias(f: CamFormat) -> int {
    match f {
        CamFormat::Yuy2 => 80000,
        CamFormat::Nv12 => 70000,
        CamFormat::Rgb32 => 20000,
    }
}

pub open spec fn abs_diff(a: int, b: int) -> int {
    if a >= b {
        a - b
    } else {
        b - a
    }
}

/// The score of a native media type `(format, width, height, rate
/// numerator, rate denominator)` against the ideal size.
pub open spec fn media_score(c: (CamFormat, u32, u32, u32, u32), ideal: (int, int)) -> int {
    format_bias(c.0) + fps_score(fps_of(c.3, c.4)) - (abs_diff(c.1 as int, ideal.0) + abs_diff(
        c.2 as int,
        ideal.1,
    )) * 15
}

/// A media type is considered when it is at least 160x120.
pub open spec fn usable(c: (CamFormat, u32, u32, u32, u32)) -> bool {
    c.1 >= 160 && c.2 >= 120
}

/// The index of the best-scoring usable media type, the first of equal
/// best scores; none when no type is usable.
pub open spec fn best_scored(cands: Seq<(CamFormat, u32, u32, u32, u32)>, ideal: (int, int)) -> Option<int>
    decreases cands.len(),
{
    if cands.len() == 0 {
        None
    } else {
        let i = cands.len() - 1;
        let prev = best_scored(cands.drop_last(), ideal);
        if !usable(cands[i]) {
            prev
        } else {
            match prev {
                None => Some(i),
                Some(b) => if media_score(cands[i], ideal) > media_score(cands[b], ideal) {
                    Some(i)
                } else {
                    prev
                },
            }
        }
    }
}

/// The ideal camera size for a picture-in-picture of `target_w`x`target_h`.
pub fn ideal_capture_size(target_w: u32, target_h: u32) -> (r: (u32, u32))
    ensures
        (r.0 as int, r.1 as int) == ideal_size(target_w, target_h),
{
    let w2 = target_w as u64 * 2;
    let h2 = target_h as u64 * 2;
    let w: u32 = if w2 < 640 { 640 } else if w2 > 1280 { 1280 } else { w2 as u32 };
    let h: u32 = if h2 < 480 { 480 } else if h2 > 720 { 720 } else { h2 as u32 };
    (w, h)
}

fn score_of(c: (CamFormat, u32, u32, u32, u32), ideal: (u32, u32)) -> (r: i64)
    requires
        640 <= ideal.0 <= 1280,
        480 <= ideal.1 <= 720,
    ensures
        r == media_score(c, (ideal.0 as int, ideal.1 as int)),
{
    let fps: i64 = if c.4 == 0 { 0 } else { (c.3 / c.4) as i64 };
    let bias: i64 = match c.0 {
        CamFormat::Yuy2 => 80000,
        CamFormat::Nv12 => 70000,
        CamFormat::Rgb32 => 20000,
    };
    let fs: i64 = if fps >= 28 {
        fps * 2000
    } else if fps >= 24 {
        fps * 1500
    } else if fps >= 15 {
        fps * 400
    } else {
        fps * 50 - 30000
    };
    let dw: i64 = if c.1 as i64 >= ideal.0 as i64 { c.1 as i64 - ideal.0 as i64 } else { ideal.0 as i64 - c.1 as i64 };
    let dh: i64 = if c.2 as i64 >= ideal.1 as i64 { c.2 as i64 - ideal.1 as i64 } else { ideal.1 as i64 - c.2 as i64 };
    bias + fs - (dw + dh) * 15
}

/// Choose the native media type a webcam is read in: the usable one
/// (at least 160x120) scoring best against the ideal size for the target
/// picture, the first of equal scores; none when no type is usable.
pub fn pick_media_type(cands: &[(CamFormat, u32, u32, u32, u32)], target_w: u32, target_h: u32) -> (r: Option<usize>)
    ensures
        match r {
            Some(i) => best_scored(cands@, ideal_size(target_w, target_h)) == Some(i as int),
            None => best_scored(cands@, ideal_size(target_w, target_h)) is None,
        },
{
    let ideal = ideal_capture_size(target_w, target_h);
    let ghost id = ideal_size(target_w, target_h);
    let mut best: Option<(usize, i64)> = None;
    let mut i: usize = 0;
    while i < cands.len()
        invariant
            i <= cands@.len(),
            id == ideal_size(target_w, target_h),
            (ideal.0 as int, ideal.1 as int) == id,
            640 <= ideal.0 <= 1280,
            480 <= ideal.1 <= 720,
            match best {
                Some((b, sc)) => best_scored(cands@.take(i as int), id) == Some(b as int) && b < i
                    && sc == media_score(cands@[b as int], id),
                None => best_scored(cands@.take(i as int), id) is None,
            },
        decreases cands@.len() - i,
    {
        let c = cands[i];
        let ghost t = cands@.take(i + 1);
        proof {
            assert(t.drop_last() == cands@.take(i as int));
            assert(t[i as int] == c);
            if let Some((b, _)) = best {
                assert(t[b as int] == cands@[b as int]);
            }
        }
        if c.1 >= 160 && c.2 >= 120 {
            let sc = score_of(c, ideal);
            match best {
                None => {
                    best = Some((i, sc));
                },
                Some((_, bs)) => {
                    if sc > bs {
                        best = Some((i, sc));
                    }
                },
            }
        }
        i = i + 1;
    }
    proof {
        assert(cands@.take(cands@.len() as int) == cands@);
    }
    match best {
        Some((b, _)) => Some(b),
        None => None,
    }
}

} // verus!
