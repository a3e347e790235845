//! Pixel work on captured frames: channel order, mirroring, blacking out a
//! rectangle, and the rounded corners of the webcam picture-in-picture.
//! A pixel is four bytes; pixel `p` of a `w`-wide frame is at row `p / w`,
//! column `p % w`, and its bytes start at `4 * p`.

use vstd::prelude::*;
use vstd::arithmetic::div_mod::{lemma_div_pos_is_pos, lemma_fundamental_div_mod, lemma_mod_bound};
use vstd::arithmetic::mul::{lemma_mul_inequality, lemma_mul_is_commutative};
use crate::capture::{Frame, PixelRect};

verus! {

/// Row and column of pixel `p` of a `w`-wide, `h`-high image.
pub proof fn lemma_row_col(p: int, w: int, h: int)
    requires
        w > 0,
        0 <= p < w * h,
    ensures
        p == (p / w) * w + p % w,
        0 <= p % w < w,
        0 <= p / w < h,
{
    lemma_fundamental_div_mod(p, w);
    lemma_mul_is_commutative(w, p / w);
    lemma_mod_bound(p, w);
    lemma_div_pos_is_pos(p, w);
    if p / w >= h {
        lemma_mul_inequality(h, p / w, w);
        lemma_mul_is_commutative(w, h);
    }
}

/// Byte `j` after swapping the first and third byte of every whole pixel
/// (BGRA to RGBA and back); a trailing partial pixel is left alone.
pub open spec fn swapped_byte(s: Seq<u8>, j: int) -> u8 {
    let k = j % 4;
    if j - k + 4 <= s.len() {
        if k == 0 {
            s[j + 2]
        } else if k == 2 {
            s[j - 2]
        } else {
            s[j]
        }
    } else {
        s[j]
    }
}

pub open spec fn rb_swapped(s: Seq<u8>) -> Seq<u8> {
    Seq::new(s.len(), |j: int| swapped_byte(s, j))
}

/// Swap R/B channels in-place (BGRA ↔ RGBA).
pub fn swap_rb_inplace(frame: &mut Frame)
    ensures
        final(frame).rgba@ == rb_swapped(old(frame).rgba@),
        final(frame).width == old(frame).width,
        final(frame).height == old(frame).height,
        final(frame).timestamp_ms == old(frame).timestamp_ms,
{
    let ghost s = frame.rgba@;
    let n = frame.rgba.len();
    let mut i: usize = 0;
    while i < n && n - i >= 4
        invariant
            n == s.len(),
            frame.rgba@.len() == n,
            i % 4 == 0,
            i <= n,
            forall|j: int| 0 <= j < n ==> #[trigger] frame.rgba@[j] == if j < i {
                swapped_byte(s, j)
            } else {
                s[j]
            },
            frame.width == old(frame).width,
            frame.height == old(frame).height,
            frame.timestamp_ms == old(frame).timestamp_ms,
            s == old(frame).rgba@,
        decreases n - i,
    {
        let a = frame.rgba[i];
        let b = frame.rgba[i + 2];
        frame.rgba.set(i, b);
        frame.rgba.set(i + 2, a);
        proof {
            assert forall|j: int| 0 <= j < n implies #[trigger] frame.rgba@[j] == if j < i + 4 {
                swapped_byte(s, j)
            } else {
                s[j]
            } by {
                if i <= j < i + 4 {
                    assert(j % 4 == j - i);
                }
            }
        }
        i = i + 4;
    }
    proof {
        assert forall|j: int| 0 <= j < n implies #[trigger] frame.rgba@[j] == swapped_byte(s, j) by {
            if j >= i {
                assert(j - j % 4 >= i);
            }
        }
        assert(frame.rgba@ =~= rb_swapped(s));
    }
}

/// Swapping the channels twice gives the frame back.
pub proof fn lemma_swap_rb_twice(s: Seq<u8>)
    ensures
        rb_swapped(rb_swapped(s)) == s,
{
    let t = rb_swapped(s);
    assert forall|j: int| 0 <= j < s.len() implies #[trigger] rb_swapped(t)[j] == s[j] by {
        let k = j % 4;
        if j - k + 4 <= s.len() {
            if k == 0 {
                assert((j + 2) % 4 == 2);
            } else if k == 2 {
                assert((j - 2) % 4 == 0);
            }
        }
    }
    assert(rb_swapped(t) =~= s);
}

/// Byte `j` of a `w`-wide, `h`-high frame mirrored left to right: pixel
/// (row, column) takes the bytes of (row, `w - 1 - column`). Frames
/// narrower than 2 pixels or with too short a buffer are left alone, as
/// are bytes past the image.
pub open spec fn mirrored_byte(s: Seq<u8>, w: int, h: int, j: int) -> u8 {
    if w >= 2 && s.len() >= w * h * 4 && j < w * h * 4 {
        let p = j / 4;
        let row = p / w;
        let col = p % w;
        s[(row * w + (w - 1 - col)) * 4 + j % 4]
    } else {
        s[j]
    }
}

pub open spec fn mirrored(s: Seq<u8>, w: int, h: int) -> Seq<u8> {
    Seq::new(s.len(), |j: int| mirrored_byte(s, w, h, j))
}

/// Mirror the frame left to right.
pub fn mirror_rgba_inplace(frame: &mut Frame)
    requires
        old(frame).width as int * old(frame).height as int * 4 <= usize::MAX,
    ensures
        final(frame).rgba@ == mirrored(
            old(frame).rgba@,
            old(frame).width as int,
            old(frame).height as int,
        ),
        final(frame).width == old(frame).width,
        final(frame).height == old(frame).height,
        final(frame).timestamp_ms == old(frame).timestamp_ms,
{
    let w = frame.width as usize;
    let h = frame.height as usize;
    let ghost s = frame.rgba@;
    proof {
        assert(0 <= w * h) by (nonlinear_arith)
            requires
                w >= 0,
                h >= 0,
        ;
    }
    let size = w * h * 4;
    if w < 2 || frame.rgba.len() < size {
        proof {
            assert(frame.rgba@ =~= mirrored(s, w as int, h as int));
        }
        return;
    }
    let n = frame.rgba.len();
    let mut out: Vec<u8> = Vec::new();
    let mut j: usize = 0;
    while j < n
        invariant
            n == s.len(),
            s == frame.rgba@,
            w == frame.width,
            h == frame.height,
            w >= 2,
            size == w * h * 4,
            size <= n,
            j <= n,
            out@ == mirrored(s, w as int, h as int).take(j as int),
        decreases n - j,
    {
        let v: u8;
        if j < size {
            let p = j / 4;
            let row = p / w;
            let col = p % w;
            proof {
                lemma_row_col(p as int, w as int, h as int);
                assert(row * w + (w - 1 - col) < w * h) by (nonlinear_arith)
                    requires
                        row < h,
                        col < w,
                ;
            }
            let src = (row * w + (w - 1 - col)) * 4 + j % 4;
            v = frame.rgba[src];
        } else {
            v = frame.rgba[j];
        }
        proof {
            assert(v == mirrored_byte(s, w as int, h as int, j as int));
            assert(out@.push(v) =~= mirrored(s, w as int, h as int).take(j + 1));
        }
        out.push(v);
        j = j + 1;
    }
    proof {
        assert(mirrored(s, w as int, h as int).take(n as int) =~= mirrored(s, w as int, h as int));
    }
    frame.rgba = out;
}

/// Mirroring twice gives the frame back.
pub proof fn lemma_mirror_twice(s: Seq<u8>, w: int, h: int)
    requires
        w >= 0,
        h >= 0,
    ensures
        mirrored(mirrored(s, w, h), w, h) == s,
{
    let t = mirrored(s, w, h);
    assert forall|j: int| 0 <= j < s.len() implies #[trigger] mirrored(t, w, h)[j] == s[j] by {
        if w >= 2 && s.len() >= w * h * 4 && j < w * h * 4 {
            let p = j / 4;
            let row = p / w;
            let col = p % w;
            assert(0 <= w * h) by (nonlinear_arith)
                requires
                    w >= 0,
                    h >= 0,
            ;
            lemma_row_col(p, w, h);
            let q = row * w + (w - 1 - col);
            assert(q < w * h) by (nonlinear_arith)
                requires
                    0 <= row < h,
                    0 <= col < w,
                    q == row * w + (w - 1 - col),
            ;
            let i = q * 4 + j % 4;
            assert(i / 4 == q);
            assert(i % 4 == j % 4);
            vstd::arithmetic::div_mod::lemma_fundamental_div_mod_converse(q, w, row, w - 1 - col);
            assert(t[i] == mirrored_byte(s, w, h, i));
            assert((row * w + (w - 1 - (w - 1 - col))) * 4 + j % 4 == j);
        }
    }
    assert(mirrored(t, w, h) =~= s);
}

/// Whether (x, y) of a `w`x`h` box lies inside its corners rounded with
/// radius `r`: in the middle band of either axis, or within `r` of the
/// nearest corner's centre.
pub open spec fn inside_rounded_spec(x: int, y: int, w: int, h: int, r: int) -> bool {
    let in_mid_x = x >= r && x < w - r;
    let in_mid_y = y >= r && y < h - r;
    let cx = if x < r { r - x } else { x - (w - r - 1) };
    let cy = if y < r { r - y } else { y - (h - r - 1) };
    in_mid_x || in_mid_y || cx * cx + cy * cy <= r * r
}

/// Whether (x, y) of a `w`x`h` box is drawn when its corners are rounded
/// with radius `r` (`r_sq` is `r * r`); the radius is at most half of
/// either side.
pub fn inside_rounded(x: u32, y: u32, w: u32, h: u32, r: u32, r_sq: u64) -> (b: bool)
    requires
        x < w,
        y < h,
        2 * r <= w,
        2 * r <= h,
        r_sq == r * r,
    ensures
        b == inside_rounded_spec(x as int, y as int, w as int, h as int, r as int),
{
    let in_mid_x = x >= r && x < (if w >= r { w - r } else { 0 });
    let in_mid_y = y >= r && y < (if h >= r { h - r } else { 0 });
    if in_mid_x || in_mid_y {
        return true;
    }
    let cx: u32 = if x < r { r - x } else { x - (w - r - 1) };
    let cy: u32 = if y < r { r - y } else { y - (h - r - 1) };
    proof {
        assert(cx <= r && cy <= r);
        assert((cx as u64) * (cx as u64) <= 0xffff_ffff * 0xffff_ffffu64) by (nonlinear_arith)
            requires
                cx <= 0xffff_ffff,
        ;
        assert((cx as u64) * (cx as u64) + (cy as u64) * (cy as u64) <= 2 * (r as u64) * (r as u64))
            by (nonlinear_arith)
            requires
                cx <= r,
                cy <= r,
        ;
        assert(2 * (r as u64) * (r as u64) <= u64::MAX) by (nonlinear_arith)
            requires
                r <= 0x7fff_ffff,
        ;
    }
    (cx as u64) * (cx as u64) + (cy as u64) * (cy as u64) <= r_sq
}

/// `v` as `i32` takes it (`u32 as i32`: wrapping above `i32::MAX`).
pub open spec fn wrap_i32(v: u32) -> int {
    if v <= i32::MAX {
        v as int
    } else {
        v - 0x1_0000_0000
    }
}

/// `v` saturated into the `i32` range.
pub open spec fn sat_i32(v: int) -> int {
    if v < i32::MIN {
        i32::MIN as int
    } else if v > i32::MAX {
        i32::MAX as int
    } else {
        v
    }
}

/// `v.max(0).min(hi)`.
pub open spec fn clip(v: int, hi: int) -> int {
    if v < 0 {
        0
    } else if v > hi {
        hi
    } else {
        v
    }
}

/// The part of the rectangle (`x`, `y`, `w`, `h`) inside a `fw`x`fh` frame,
/// as (left, top, right, bottom); the far edges saturate like `i32`
/// arithmetic.
pub open spec fn clipped_rect(fw: int, fh: int, x: i32, y: i32, w: u32, h: u32) -> (int, int, int, int) {
    (
        clip(x as int, fw),
        clip(y as int, fh),
        clip(sat_i32(x + wrap_i32(w)), fw),
        clip(sat_i32(y + wrap_i32(h)), fh),
    )
}

/// What `blackout_rect` reports: the clipped rectangle, if not empty.
pub open spec fn painted_rect(fw: int, fh: int, x: i32, y: i32, w: u32, h: u32) -> Option<PixelRect> {
    let (l, t, r, b) = clipped_rect(fw, fh, x, y, w, h);
    if l >= r || t >= b {
        None
    } else {
        Some(PixelRect { x: l as u32, y: t as u32, width: (r - l) as u32, height: (b - t) as u32 })
    }
}

/// Byte `j` after painting the clipped rectangle opaque black: every byte
/// of a whole pixel inside it becomes 0, its alpha byte 255.
pub open spec fn blacked_byte(s: Seq<u8>, fw: int, fh: int, x: i32, y: i32, w: u32, h: u32, j: int) -> u8 {
    let (l, t, r, b) = clipped_rect(fw, fh, x, y, w, h);
    let p = j / 4;
    if fw > 0 && l <= p % fw < r && t <= p / fw < b && 4 * p + 4 <= s.len() {
        if j % 4 == 3 {
            255
        } else {
            0
        }
    } else {
        s[j]
    }
}

pub open spec fn blacked(s: Seq<u8>, fw: int, fh: int, x: i32, y: i32, w: u32, h: u32) -> Seq<u8> {
    Seq::new(s.len(), |j: int| blacked_byte(s, fw, fh, x, y, w, h, j))
}

fn clip_exec(v: i64, hi: i64) -> (r: i64)
    ensures
        r == clip(v as int, hi as int),
{
    if v < 0 {
        0
    } else if v > hi {
        hi
    } else {
        v
    }
}

fn sat_add(a: i32, w: u32) -> (r: i64)
    ensures
        r == sat_i32(a + wrap_i32(w)),
{
    let wi: i64 = if w <= 0x7fff_ffff {
        w as i64
    } else {
        w as i64 - 0x1_0000_0000
    };
    let sum: i64 = a as i64 + wi;
    if sum < -0x8000_0000 {
        -0x8000_0000
    } else if sum > 0x7fff_ffff {
        0x7fff_ffff
    } else {
        sum
    }
}

impl Frame {
    /// Fill a frame-local rectangle with opaque black pixels. Returns the
    /// clipped rectangle that was actually painted, if any, so callers can
    /// label it.
    pub fn blackout_rect(&mut self, x: i32, y: i32, width: u32, height: u32) -> (r: Option<PixelRect>)
        requires
            old(self).width <= i32::MAX,
            old(self).height <= i32::MAX,
        ensures
            r == painted_rect(
                old(self).width as int,
                old(self).height as int,
                x,
                y,
                width,
                height,
            ),
            final(self).rgba@ == if r is Some {
                blacked(
                    old(self).rgba@,
                    old(self).width as int,
                    old(self).height as int,
                    x,
                    y,
                    width,
                    height,
                )
            } else {
                old(self).rgba@
            },
            final(self).width == old(self).width,
            final(self).height == old(self).height,
            final(self).timestamp_ms == old(self).timestamp_ms,
    {
        let fw: i64 = self.width as i64;
        let fh: i64 = self.height as i64;
        let left = clip_exec(x as i64, fw);
        let top = clip_exec(y as i64, fh);
        let right = clip_exec(sat_add(x, width), fw);
        let bottom = clip_exec(sat_add(y, height), fh);
        if left >= right || top >= bottom {
            return None;
        }
        let ghost s = self.rgba@;
        let n = self.rgba.len();
        let w = self.width as usize;
        let mut out: Vec<u8> = Vec::new();
        let mut j: usize = 0;
        while j < n
            invariant
                n == s.len(),
                s == self.rgba@,
                w == self.width,
                w as i64 == fw,
                fh == self.height,
                0 <= left < right <= fw,
                0 <= top < bottom <= fh,
                clipped_rect(fw as int, fh as int, x, y, width, height) == (
                    left as int,
                    top as int,
                    right as int,
                    bottom as int,
                ),
                j <= n,
                out@ == blacked(s, fw as int, fh as int, x, y, width, height).take(j as int),
            decreases n - j,
        {
            let p = j / 4;
            let col = p % w;
            let row = p / w;
            let inside = left as usize <= col && col < right as usize && top as usize <= row
                && row < bottom as usize && n / 4 > p;
            let v: u8 = if inside {
                if j % 4 == 3 {
                    255
                } else {
                    0
                }
            } else {
                self.rgba[j]
            };
            proof {
                assert((n / 4 > p) == (4 * p + 4 <= n));
                assert(v == blacked_byte(s, fw as int, fh as int, x, y, width, height, j as int));
                assert(out@.push(v) =~= blacked(s, fw as int, fh as int, x, y, width, height).take(
                    j + 1,
                ));
            }
            out.push(v);
            j = j + 1;
        }
        proof {
            assert(blacked(s, fw as int, fh as int, x, y, width, height).take(n as int) =~= blacked(
                s,
                fw as int,
                fh as int,
                x,
                y,
                width,
                height,
            ));
        }
        self.rgba = out;
        Some(
            PixelRect {
                x: left as u32,
                y: top as u32,
                width: (right - left) as u32,
                height: (bottom - top) as u32,
            },
        )
    }
}

/// A frame whose buffer holds exactly its pixels, and whose byte offsets
/// fit in `u32`.
pub open spec fn frame_ok(f: Frame) -> bool {
    &&& f.rgba@.len() == f.width as int * f.height as int * 4
    &&& f.width as int * f.height as int * 4 <= u32::MAX
}

/// Where and how the webcam picture-in-picture is drawn, its position
/// already resolved to pixels.
#[derive(Debug, Clone, Copy, PartialEq, Eq, Structural)]
pub struct PipLayout {
    pub enabled: bool,
    pub width: u32,
    pub height: u32,
    pub mirrored: bool,
    pub corner_radius: u32,
}

/// The box the picture takes on a `fw`x`fh` frame: its size at least 2
/// and at most the frame's.
pub open spec fn pip_box(pip: PipLayout, fw: u32, fh: u32) -> (u32, u32) {
    let w = if pip.width < 2 { 2 } else { pip.width };
    let h = if pip.height < 2 { 2 } else { pip.height };
    (if w > fw { fw } else { w }, if h > fh { fh } else { h })
}

/// The size of the picture-in-picture box on a `frame_w`x`frame_h` frame.
pub fn pip_box_size(pip: &PipLayout, frame_w: u32, frame_h: u32) -> (r: (u32, u32))
    ensures
        r == pip_box(*pip, frame_w, frame_h),
{
    let w = if pip.width < 2 { 2 } else { pip.width };
    let h = if pip.height < 2 { 2 } else { pip.height };
    (if w > frame_w { frame_w } else { w }, if h > frame_h { frame_h } else { h })
}

/// The corner radius used: at most half the box's shorter side.
pub open spec fn pip_radius(pip: PipLayout, bw: u32, bh: u32) -> int {
    let half = (if bw < bh { bw } else { bh }) / 2;
    if pip.corner_radius < half { pip.corner_radius as int } else { half as int }
}

/// Whether the picture is drawn at all.
pub open spec fn pip_drawn(pip: PipLayout, base: Frame, cam: Frame) -> bool {
    pip.enabled && cam.width >= 2 && cam.height >= 2 && base.width >= 2 && base.height >= 2
}

/// Byte `j` of the base frame with the camera picture composited at
/// (`ox`, `oy`): inside the (rounded) box, the camera pixel sampled by
/// nearest neighbour from the box position (mirrored left to right when
/// asked); elsewhere the base byte.
pub open spec fn pip_byte(base: Frame, cam: Frame, pip: PipLayout, ox: int, oy: int, j: int) -> u8 {
    let (bw, bh) = pip_box(pip, base.width, base.height);
    let r = pip_radius(pip, bw, bh);
    let p = j / 4;
    let dx = p % (base.width as int) - ox;
    let dy = p / (base.width as int) - oy;
    if 0 <= dx < bw && 0 <= dy < bh && (r == 0 || inside_rounded_spec(dx, dy, bw as int, bh as int, r)) {
        let sx = if pip.mirrored { bw - 1 - dx } else { dx };
        let cx = sx * cam.width / (bw as int);
        let cy = dy * cam.height / (bh as int);
        cam.rgba@[(cy * cam.width + cx) * 4 + j % 4]
    } else {
        base.rgba@[j]
    }
}

pub open spec fn pip_composited(base: Frame, cam: Frame, pip: PipLayout, ox: int, oy: int) -> Seq<u8> {
    Seq::new(base.rgba@.len(), |j: int| pip_byte(base, cam, pip, ox, oy, j))
}

/// Where the picture-in-picture goes: outside its box the base frame is
/// kept; a box with corner radius `r > 0` (the radius asked for, at most
/// half the box's shorter side) keeps the base frame at every box pixel
/// farther than `r` from the centre of its corner's quarter circle, at
/// (`r`, `r`) from that corner; and in the square-cornered box, or in the
/// rounded box's middle bands, the camera pixel sampled by nearest
/// neighbour (mirrored left to right when asked) is drawn.
pub proof fn lemma_pip_rounded_box(base: Frame, cam: Frame, pip: PipLayout, ox: int, oy: int, j: int)
    requires
        frame_ok(base),
        0 <= j < base.rgba@.len(),
    ensures
        ({
            let w: int = if pip.width < 2 { 2 } else { pip.width as int };
            let h: int = if pip.height < 2 { 2 } else { pip.height as int };
            let bw: int = if w > base.width { base.width as int } else { w };
            let bh: int = if h > base.height { base.height as int } else { h };
            let half: int = (if bw < bh { bw } else { bh }) / 2;
            let r: int = if pip.corner_radius < half { pip.corner_radius as int } else { half };
            let dx = (j / 4) % (base.width as int) - ox;
            let dy = (j / 4) / (base.width as int) - oy;
            let out = pip_composited(base, cam, pip, ox, oy)[j];
            &&& !(0 <= dx < bw && 0 <= dy < bh) ==> out == base.rgba@[j]
            &&& (r > 0 && 0 <= dx < r && 0 <= dy < r && (r - dx) * (r - dx) + (r - dy) * (r - dy) > r
                * r) ==> out == base.rgba@[j]
            &&& (r > 0 && bw - r <= dx < bw && 0 <= dy < r && (dx - (bw - r - 1)) * (dx - (bw - r - 1))
                + (r - dy) * (r - dy) > r * r) ==> out == base.rgba@[j]
            &&& (r > 0 && 0 <= dx < r && bh - r <= dy < bh && (r - dx) * (r - dx) + (dy - (bh - r - 1))
                * (dy - (bh - r - 1)) > r * r) ==> out == base.rgba@[j]
            &&& (r > 0 && bw - r <= dx < bw && bh - r <= dy < bh && (dx - (bw - r - 1)) * (dx - (bw - r
                - 1)) + (dy - (bh - r - 1)) * (dy - (bh - r - 1)) > r * r) ==> out == base.rgba@[j]
            &&& (0 <= dx < bw && 0 <= dy < bh && (r == 0 || r <= dx < bw - r || r <= dy < bh - r)) ==> out
                == cam.rgba@[((dy * cam.height / bh) * cam.width + (if pip.mirrored {
                bw - 1 - dx
            } else {
                dx
            }) * cam.width / bw) * 4 + j % 4]
        }),
{
    assert(pip_composited(base, cam, pip, ox, oy)[j] == pip_byte(base, cam, pip, ox, oy, j));
}

/// Composite `cam` onto `base` at (`ox`, `oy`). Both frames use 4-byte
/// pixels in the same channel order.
pub fn composite_webcam_pip(base: &mut Frame, cam: &Frame, pip: &PipLayout, ox: i32, oy: i32)
    requires
        frame_ok(*old(base)),
        frame_ok(*cam),
    ensures
        final(base).rgba@ == if pip_drawn(*pip, *old(base), *cam) {
            pip_composited(*old(base), *cam, *pip, ox as int, oy as int)
        } else {
            old(base).rgba@
        },
        final(base).width == old(base).width,
        final(base).height == old(base).height,
        final(base).timestamp_ms == old(base).timestamp_ms,
{
    if !pip.enabled || cam.width < 2 || cam.height < 2 || base.width < 2 || base.height < 2 {
        return;
    }
    let (bw, bh) = pip_box_size(pip, base.width, base.height);
    let half = (if bw < bh { bw } else { bh }) / 2;
    let radius: u32 = if pip.corner_radius < half { pip.corner_radius } else { half };
    proof {
        assert((radius as u64) * (radius as u64) <= 0xffff_ffff * 0xffff_ffffu64) by (nonlinear_arith)
            requires
                radius <= 0xffff_ffff,
        ;
    }
    let r_sq: u64 = (radius as u64) * (radius as u64);
    let ghost b0 = *base;
    let n = base.rgba.len();
    let fw = base.width as usize;
    let cw = cam.width as u64;
    let ch = cam.height as u64;
    let mut out: Vec<u8> = Vec::new();
    let mut j: usize = 0;
    proof {
        assert(0 <= (base.width as int) * (base.height as int)) by (nonlinear_arith);
    }
    while j < n
        invariant
            n == b0.rgba@.len(),
            b0 == *base,
            frame_ok(b0),
            frame_ok(*cam),
            pip_drawn(*pip, b0, *cam),
            (bw, bh) == pip_box(*pip, b0.width, b0.height),
            radius == pip_radius(*pip, bw, bh),
            r_sq == radius * radius,
            fw == b0.width,
            cw == cam.width,
            ch == cam.height,
            j <= n,
            out@ == pip_composited(b0, *cam, *pip, ox as int, oy as int).take(j as int),
        decreases n - j,
    {
        let p = j / 4;
        let col = (p % fw) as i64;
        let row = (p / fw) as i64;
        let dx: i64 = col - ox as i64;
        let dy: i64 = row - oy as i64;
        let mut v: u8 = base.rgba[j];
        if 0 <= dx && dx < bw as i64 && 0 <= dy && dy < bh as i64 {
            let ux = dx as u32;
            let uy = dy as u32;
            let drawn = radius == 0 || inside_rounded(ux, uy, bw, bh, radius, r_sq);
            if drawn {
                let sx: u32 = if pip.mirrored { bw - 1 - ux } else { ux };
                proof {
                    assert((sx as u64) * cw <= 0xffff_ffff * 0xffff_ffffu64) by (nonlinear_arith)
                        requires
                            sx <= 0xffff_ffff,
                            cw <= 0xffff_ffff,
                    ;
                    assert((uy as u64) * ch <= 0xffff_ffff * 0xffff_ffffu64) by (nonlinear_arith)
                        requires
                            uy <= 0xffff_ffff,
                            ch <= 0xffff_ffff,
                    ;
                }
                let px: u64 = (sx as u64) * cw;
                let py: u64 = (uy as u64) * ch;
                let cx: u64 = px / (bw as u64);
                let cy: u64 = py / (bh as u64);
                proof {
                    assert(cx < cw) by (nonlinear_arith)
                        requires
                            px == sx * cw,
                            cx == px as int / (bw as int),
                            sx < bw,
                            bw > 0,
                            cw > 0,
                    ;
                    assert(cy < ch) by (nonlinear_arith)
                        requires
                            py == uy * ch,
                            cy == py as int / (bh as int),
                            uy < bh,
                            bh > 0,
                            ch > 0,
                    ;
                    assert((cy * cw + cx) * 4 + 3 < cw * ch * 4) by (nonlinear_arith)
                        requires
                            cx < cw,
                            cy < ch,
                    ;
                }
                let si = ((cy * cw + cx) * 4) as usize + j % 4;
                v = cam.rgba[si];
            }
        }
        proof {
            assert(v == pip_byte(b0, *cam, *pip, ox as int, oy as int, j as int));
            assert(out@.push(v) =~= pip_composited(b0, *cam, *pip, ox as int, oy as int).take(
                j + 1,
            ));
        }
        out.push(v);
        j = j + 1;
    }
    proof {
        assert(pip_composited(b0, *cam, *pip, ox as int, oy as int).take(n as int) =~= pip_composited(
            b0,
            *cam,
            *pip,
            ox as int,
            oy as int,
        ));
    }
    base.rgba = out;
}

/// The side of the square scratch bitmap a cursor glyph is drawn into.
pub const CURSOR_GLYPH_SIZE: u32 = 64;

/// Pixel (`gx`, `gy`) of a glyph is blank: all four bytes zero.
pub open spec fn glyph_blank(glyph: Seq<u8>, gx: int, gy: int) -> bool {
    let i = (gy * 64 + gx) * 4;
    glyph[i] == 0 && glyph[i + 1] == 0 && glyph[i + 2] == 0 && glyph[i + 3] == 0
}

/// Byte `j` of the frame with a 64x64 cursor glyph drawn with its corner
/// at (`hx`, `hy`): where a non-blank glyph pixel lands, its bytes;
/// elsewhere the frame's.
pub open spec fn cursor_byte(f: Frame, glyph: Seq<u8>, hx: int, hy: int, j: int) -> u8 {
    let p = j / 4;
    let gx = p % (f.width as int) - hx;
    let gy = p / (f.width as int) - hy;
    if 0 <= gx < 64 && 0 <= gy < 64 && !glyph_blank(glyph, gx, gy) {
        glyph[(gy * 64 + gx) * 4 + j % 4]
    } else {
        f.rgba@[j]
    }
}

pub open spec fn with_cursor(f: Frame, glyph: Seq<u8>, hx: int, hy: int) -> Seq<u8> {
    Seq::new(f.rgba@.len(), |j: int| cursor_byte(f, glyph, hx, hy, j))
}

/// Draw a cursor glyph (a 64x64 BGRA bitmap, blank where transparent)
/// into the frame with its top-left corner at (`hx`, `hy`) of the frame.
pub fn blit_cursor_glyph(frame: &mut Frame, glyph: &[u8], hx: i32, hy: i32)
    requires
        frame_ok(*old(frame)),
        glyph@.len() == 64 * 64 * 4,
    ensures
        final(frame).rgba@ == with_cursor(*old(frame), glyph@, hx as int, hy as int),
        final(frame).width == old(frame).width,
        final(frame).height == old(frame).height,
        final(frame).timestamp_ms == old(frame).timestamp_ms,
{
    let ghost f0 = *frame;
    if frame.width == 0 {
        proof {
            assert(frame.rgba@.len() == 0) by (nonlinear_arith)
                requires
                    frame.rgba@.len() == frame.width as int * frame.height as int * 4,
                    frame.width == 0,
            ;
            assert(frame.rgba@ =~= with_cursor(f0, glyph@, hx as int, hy as int));
        }
        return;
    }
    let n = frame.rgba.len();
    let fw = frame.width as usize;
    let mut out: Vec<u8> = Vec::new();
    let mut j: usize = 0;
    while j < n
        invariant
            n == f0.rgba@.len(),
            f0 == *frame,
            fw == f0.width,
            fw > 0,
            glyph@.len() == 64 * 64 * 4,
            j <= n,
            out@ == with_cursor(f0, glyph@, hx as int, hy as int).take(j as int),
        decreases n - j,
    {
        let p = j / 4;
        let gx: i64 = (p % fw) as i64 - hx as i64;
        let gy: i64 = (p / fw) as i64 - hy as i64;
        let mut v: u8 = frame.rgba[j];
        if 0 <= gx && gx < 64 && 0 <= gy && gy < 64 {
            let gi = ((gy * 64 + gx) * 4) as usize;
            let blank = glyph[gi] == 0 && glyph[gi + 1] == 0 && glyph[gi + 2] == 0 && glyph[gi + 3]
                == 0;
            if !blank {
                v = glyph[gi + j % 4];
            }
        }
        proof {
            assert(v == cursor_byte(f0, glyph@, hx as int, hy as int, j as int));
            assert(out@.push(v) =~= with_cursor(f0, glyph@, hx as int, hy as int).take(j + 1));
        }
        out.push(v);
        j = j + 1;
    }
    proof {
        assert(with_cursor(f0, glyph@, hx as int, hy as int).take(n as int) =~= with_cursor(
            f0,
            glyph@,
            hx as int,
            hy as int,
        ));
    }
    frame.rgba = out;
}

/// Byte `j` of `f` scaled to `ow`x`oh` by nearest neighbour: output pixel
/// (x, y) takes source pixel (x * w / ow, y * h / oh).
pub open spec fn scaled_byte(f: Frame, ow: int, oh: int, j: int) -> u8 {
    let p = j / 4;
    let x = p % ow;
    let y = p / ow;
    let sx = x * f.width / ow;
    let sy = y * f.height / oh;
    f.rgba@[(sy * f.width + sx) * 4 + j % 4]
}

pub open spec fn scaled(f: Frame, ow: int, oh: int) -> Seq<u8> {
    Seq::new((ow * oh * 4) as nat, |j: int| scaled_byte(f, ow, oh, j))
}

fn scale_pixels(frame: &Frame, out_w: u32, out_h: u32) -> (r: Vec<u8>)
    requires
        frame_ok(*frame),
        frame.width > 0,
        frame.height > 0,
        out_w > 0,
        out_h > 0,
        out_w as int * out_h as int * 4 <= u32::MAX,
    ensures
        r@ == scaled(*frame, out_w as int, out_h as int),
{
    let n = ((out_w as u64) * (out_h as u64) * 4) as usize;
    let ow = out_w as usize;
    let fw = frame.width as u64;
    let fh = frame.height as u64;
    let mut out: Vec<u8> = Vec::new();
    let mut j: usize = 0;
    while j < n
        invariant
            n == out_w as int * out_h as int * 4,
            ow == out_w,
            fw == frame.width,
            fh == frame.height,
            frame_ok(*frame),
            frame.width > 0,
            frame.height > 0,
            out_w > 0,
            out_h > 0,
            j <= n,
            out@ == scaled(*frame, out_w as int, out_h as int).take(j as int),
        decreases n - j,
    {
        let p = j / 4;
        let x = (p % ow) as u64;
        let y = (p / ow) as u64;
        proof {
            lemma_row_col(p as int, out_w as int, out_h as int);
            assert(x * fw <= 0xffff_ffff * 0xffff_ffffu64) by (nonlinear_arith)
                requires
                    x <= 0xffff_ffff,
                    fw <= 0xffff_ffff,
            ;
            assert(y * fh <= 0xffff_ffff * 0xffff_ffffu64) by (nonlinear_arith)
                requires
                    y <= 0xffff_ffff,
                    fh <= 0xffff_ffff,
            ;
        }
        let xf = x * fw;
        let yf = y * fh;
        let sx = xf / (out_w as u64);
        let sy = yf / (out_h as u64);
        proof {
            assert(sx < fw) by (nonlinear_arith)
                requires
                    xf == x * fw,
                    sx == xf as int / (out_w as int),
                    x < out_w,
                    out_w > 0,
                    fw > 0,
            ;
            assert(sy < fh) by (nonlinear_arith)
                requires
                    yf == y * fh,
                    sy == yf as int / (out_h as int),
                    y < out_h,
                    out_h > 0,
                    fh > 0,
            ;
            assert((sy * fw + sx) * 4 + 3 < fw * fh * 4) by (nonlinear_arith)
                requires
                    sx < fw,
                    sy < fh,
            ;
        }
        let si = ((sy * fw + sx) * 4) as usize + j % 4;
        let v = frame.rgba[si];
        proof {
            assert(v == scaled_byte(*frame, out_w as int, out_h as int, j as int));
            assert(out@.push(v) =~= scaled(*frame, out_w as int, out_h as int).take(j + 1));
        }
        out.push(v);
        j = j + 1;
    }
    proof {
        assert(scaled(*frame, out_w as int, out_h as int).take(n as int) =~= scaled(
            *frame,
            out_w as int,
            out_h as int,
        ));
    }
    out
}

/// Scale a frame to exactly `out_w`x`out_h` by nearest neighbour; a frame
/// already that size is returned as it is, and an output with a side of 0
/// has no pixels. An empty frame can only be scaled to an empty output.
pub fn scale_to_exact(frame: Frame, out_w: u32, out_h: u32) -> (r: Result<Frame, crate::capture::CaptureError>)
    requires
        frame_ok(frame),
        (frame.width == out_w && frame.height == out_h) || out_w == 0 || out_h == 0 || (
        frame.width > 0 && frame.height > 0),
        out_w as int * out_h as int * 4 <= u32::MAX,
    ensures
        r matches Ok(f) && f.width == out_w && f.height == out_h && f.timestamp_ms
            == frame.timestamp_ms && f.rgba@ == if frame.width == out_w && frame.height == out_h {
            frame.rgba@
        } else {
            scaled(frame, out_w as int, out_h as int)
        },
{
    if frame.width == out_w && frame.height == out_h {
        return Ok(frame);
    }
    if out_w == 0 || out_h == 0 {
        proof {
            assert(out_w as int * out_h as int == 0) by (nonlinear_arith)
                requires
                    out_w == 0 || out_h == 0,
            ;
            assert(scaled(frame, out_w as int, out_h as int) =~= Seq::<u8>::empty());
        }
        return Ok(Frame { width: out_w, height: out_h, rgba: Vec::new(), timestamp_ms: frame.timestamp_ms });
    }
    let rgba = scale_pixels(&frame, out_w, out_h);
    Ok(Frame { width: out_w, height: out_h, rgba, timestamp_ms: frame.timestamp_ms })
}

/// Scale a webcam frame to `out_w`x`out_h` (each at least 1) by nearest
/// neighbour; a frame already that size is returned as it is.
pub fn scale_bgra(frame: Frame, out_w: u32, out_h: u32) -> (r: Frame)
    requires
        frame_ok(frame),
        frame.width > 0,
        frame.height > 0,
        (if out_w < 1 { 1 } else { out_w as int }) * (if out_h < 1 { 1 } else { out_h as int }) * 4
            <= u32::MAX,
    ensures
        frame.width == out_w && frame.height == out_h ==> r == frame,
        !(frame.width == out_w && frame.height == out_h) ==> {
            let ow: u32 = if out_w < 1 { 1 } else { out_w };
            let oh: u32 = if out_h < 1 { 1 } else { out_h };
            &&& r.width == ow
            &&& r.height == oh
            &&& r.timestamp_ms == frame.timestamp_ms
            &&& r.rgba@ == scaled(frame, ow as int, oh as int)
        },
{
    if frame.width == out_w && frame.height == out_h {
        return frame;
    }
    let ow: u32 = if out_w < 1 { 1 } else { out_w };
    let oh: u32 = if out_h < 1 { 1 } else { out_h };
    let rgba = scale_pixels(&frame, ow, oh);
    Frame { width: ow, height: oh, rgba, timestamp_ms: frame.timestamp_ms }
}

/// The size of a crop at (`rx`, `ry`) of at most `w`x`h`: what fits in the
/// frame, at least 1 each way.
pub open spec fn crop_size(f: Frame, rx: u32, ry: u32, w: u32, h: u32) -> (u32, u32) {
    let aw: int = if f.width >= rx { f.width - rx } else { 0 };
    let ah: int = if f.height >= ry { f.height - ry } else { 0 };
    let cw: int = if w < aw { w as int } else { aw };
    let ch: int = if h < ah { h as int } else { ah };
    ((if cw < 1 { 1 } else { cw }) as u32, (if ch < 1 { 1 } else { ch }) as u32)
}

/// Byte `j` of the `cw`-wide crop at (`rx`, `ry`).
pub open spec fn cropped_byte(f: Frame, rx: int, ry: int, cw: int, j: int) -> u8 {
    let p = j / 4;
    f.rgba@[((ry + p / cw) * f.width + rx + p % cw) * 4 + j % 4]
}

pub open spec fn cropped(f: Frame, rx: int, ry: int, cw: int, ch: int) -> Seq<u8> {
    Seq::new((cw * ch * 4) as nat, |j: int| cropped_byte(f, rx, ry, cw, j))
}

/// Cut the part at (`rel_x`, `rel_y`) of at most `width`x`height` out of a
/// frame; the whole frame is copied as it is when the crop covers it.
pub fn crop_bgra(frame: &Frame, rel_x: u32, rel_y: u32, width: u32, height: u32) -> (r: Result<Frame, crate::capture::CaptureError>)
    requires
        frame_ok(*frame),
        rel_x < frame.width,
        rel_y < frame.height,
    ensures
        ({
            let (cw, ch) = crop_size(*frame, rel_x, rel_y, width, height);
            r matches Ok(f) && f.width == cw && f.height == ch && f.timestamp_ms == frame.timestamp_ms
                && f.rgba@ == if rel_x == 0 && rel_y == 0 && cw == frame.width && ch == frame.height {
                frame.rgba@
            } else {
                cropped(*frame, rel_x as int, rel_y as int, cw as int, ch as int)
            }
        }),
{
    let aw = frame.width - rel_x;
    let ah = frame.height - rel_y;
    let cw0 = if width < aw { width } else { aw };
    let ch0 = if height < ah { height } else { ah };
    let crop_w = if cw0 < 1 { 1 } else { cw0 };
    let crop_h = if ch0 < 1 { 1 } else { ch0 };
    if rel_x == 0 && rel_y == 0 && crop_w == frame.width && crop_h == frame.height {
        let copy = frame.rgba.clone();
        return Ok(Frame { width: frame.width, height: frame.height, rgba: copy, timestamp_ms: frame.timestamp_ms });
    }
    let fw = frame.width as u64;
    proof {
        assert(crop_w as int * crop_h as int <= frame.width as int * frame.height as int) by (nonlinear_arith)
            requires
                crop_w <= frame.width,
                crop_h <= frame.height,
        ;
    }
    let n = ((crop_w as u64) * (crop_h as u64) * 4) as usize;
    let cwu = crop_w as usize;
    let mut out: Vec<u8> = Vec::new();
    let mut j: usize = 0;
    while j < n
        invariant
            n == crop_w as int * crop_h as int * 4,
            cwu == crop_w,
            fw == frame.width,
            frame_ok(*frame),
            crop_w >= 1,
            rel_x as int + crop_w <= frame.width,
            rel_y as int + crop_h <= frame.height,
            j <= n,
            out@ == cropped(*frame, rel_x as int, rel_y as int, crop_w as int, crop_h as int).take(j as int),
        decreases n - j,
    {
        let p = j / 4;
        let c = (p % cwu) as u64;
        let row = (p / cwu) as u64;
        proof {
            lemma_row_col(p as int, crop_w as int, crop_h as int);
            assert(((rel_y + row) * fw + rel_x + c) * 4 + 3 < frame.width as int * frame.height as int * 4)
                by (nonlinear_arith)
                requires
                    rel_y + row < frame.height,
                    rel_x + c < frame.width,
                    fw == frame.width,
            ;
        }
        let si = (((rel_y as u64 + row) * fw + rel_x as u64 + c) * 4) as usize + j % 4;
        let v = frame.rgba[si];
        proof {
            assert(v == cropped_byte(*frame, rel_x as int, rel_y as int, crop_w as int, j as int));
            assert(out@.push(v) =~= cropped(*frame, rel_x as int, rel_y as int, crop_w as int, crop_h as int).take(j + 1));
        }
        out.push(v);
        j = j + 1;
    }
    proof {
        assert(cropped(*frame, rel_x as int, rel_y as int, crop_w as int, crop_h as int).take(n as int) =~= cropped(
            *frame,
            rel_x as int,
            rel_y as int,
            crop_w as int,
            crop_h as int,
        ));
    }
    Ok(Frame { width: crop_w, height: crop_h, rgba: out, timestamp_ms: frame.timestamp_ms })
}

/// The part at (`rx`, `ry`) of at most `w`x`h` of a still capture: clipped
/// to the image, possibly empty.
pub open spec fn clipped_size(f: Frame, rx: u32, ry: u32, w: u32, h: u32) -> (u32, u32) {
    let aw: int = if f.width >= rx { f.width - rx } else { 0 };
    let ah: int = if f.height >= ry { f.height - ry } else { 0 };
    ((if w < aw { w as int } else { aw }) as u32, (if h < ah { h as int } else { ah }) as u32)
}

/// Cut the part at (`rel_x`, `rel_y`) of at most `width`x`height` out of a
/// still capture, clipped to the image; when nothing of it lies inside, the
/// result has no pixels.
pub fn crop_region(full: &Frame, rel_x: u32, rel_y: u32, width: u32, height: u32) -> (r: Frame)
    requires
        frame_ok(*full),
    ensures
        ({
            let (cw, ch) = clipped_size(*full, rel_x, rel_y, width, height);
            &&& r.width == cw
            &&& r.height == ch
            &&& r.timestamp_ms == full.timestamp_ms
            &&& r.rgba@ == if rel_x == 0 && rel_y == 0 && cw == full.width && ch == full.height {
                full.rgba@
            } else {
                cropped(*full, rel_x as int, rel_y as int, cw as int, ch as int)
            }
        }),
{
    let aw: u32 = if full.width >= rel_x { full.width - rel_x } else { 0 };
    let ah: u32 = if full.height >= rel_y { full.height - rel_y } else { 0 };
    let cw = if width < aw { width } else { aw };
    let ch = if height < ah { height } else { ah };
    if cw == 0 || ch == 0 {
        proof {
            assert(cw as int * ch as int == 0) by (nonlinear_arith)
                requires
                    cw == 0 || ch == 0,
            ;
            assert(cropped(*full, rel_x as int, rel_y as int, cw as int, ch as int) =~= Seq::<u8>::empty());
        }
        return Frame { width: cw, height: ch, rgba: Vec::new(), timestamp_ms: full.timestamp_ms };
    }
    match crop_bgra(full, rel_x, rel_y, cw, ch) {
        Ok(f) => f,
        Err(_) => Frame { width: cw, height: ch, rgba: Vec::new(), timestamp_ms: full.timestamp_ms },
    }
}

/// Byte `j` of the whole pixels of `s` with first and third bytes swapped.
pub open spec fn reordered_byte(s: Seq<u8>, j: int) -> u8 {
    let k = j % 4;
    if k == 0 {
        s[j + 2]
    } else if k == 2 {
        s[j - 2]
    } else {
        s[j]
    }
}

/// The whole pixels of `s` (a trailing partial pixel dropped) with red and
/// blue swapped.
pub open spec fn reordered(s: Seq<u8>) -> Seq<u8> {
    Seq::new((s.len() / 4 * 4) as nat, |j: int| reordered_byte(s, j))
}

/// Reordering twice gives back the whole pixels of the buffer.
pub proof fn lemma_reordered_twice(s: Seq<u8>)
    ensures
        reordered(reordered(s)) == s.take((s.len() / 4 * 4) as int),
{
    let n: int = (s.len() / 4 * 4) as int;
    let t = reordered(s);
    assert(t.len() == n);
    assert(n / 4 * 4 == n);
    assert forall|j: int| 0 <= j < n implies #[trigger] reordered(t)[j] == s[j] by {
        let k = j % 4;
        if k == 0 {
            assert((j + 2) % 4 == 2);
            assert(j + 2 < n);
        } else if k == 2 {
            assert((j - 2) % 4 == 0);
        }
    }
    assert(reordered(t) =~= s.take(n));
}

/// A captured buffer in the channel order asked for: copied as it is when
/// it already has it, else every whole pixel with red and blue swapped.
pub fn in_channel_order(pixels: &[u8], swap: bool) -> (r: Vec<u8>)
    ensures
        r@ == if swap { reordered(pixels@) } else { pixels@ },
{
    if !swap {
        let mut out: Vec<u8> = Vec::new();
        let mut i: usize = 0;
        while i < pixels.len()
            invariant
                i <= pixels@.len(),
                out@ == pixels@.take(i as int),
            decreases pixels@.len() - i,
        {
            proof {
                assert(pixels@.take(i as int).push(pixels@[i as int]) == pixels@.take(i + 1));
            }
            out.push(pixels[i]);
            i = i + 1;
        }
        proof {
            assert(pixels@.take(pixels@.len() as int) == pixels@);
        }
        return out;
    }
    let n = pixels.len() / 4 * 4;
    let mut out: Vec<u8> = Vec::new();
    let mut j: usize = 0;
    while j < n
        invariant
            n == pixels@.len() / 4 * 4,
            j <= n,
            out@ == reordered(pixels@).take(j as int),
        decreases n - j,
    {
        let k = j % 4;
        let v = if k == 0 {
            pixels[j + 2]
        } else if k == 2 {
            pixels[j - 2]
        } else {
            pixels[j]
        };
        proof {
            assert(v == reordered_byte(pixels@, j as int));
            assert(out@.push(v) =~= reordered(pixels@).take(j + 1));
        }
        out.push(v);
        j = j + 1;
    }
    proof {
        assert(reordered(pixels@).take(n as int) =~= reordered(pixels@));
    }
    out
}

} // verus!
