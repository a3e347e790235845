//! Capture targets, frames and the virtual-desktop geometry used to crop
//! and place them. Coordinates are physical pixels, the same space FFmpeg
//! `gdigrab` uses; the virtual desktop is the union of all monitors.

use vstd::prelude::*;
use crate::text::{chars_of, extend_str, string_from};

verus! {

#[derive(Debug)]
pub enum CaptureError {
    /// The capture backend is not available on this platform.
    Unsupported(&'static str),
    DisplayNotFound(String),
    WindowNotFound(String),
    Failed(String),
}

/// The message a capture error reports.
pub open spec fn capture_error_text(e: CaptureError) -> Seq<char> {
    match e {
        CaptureError::Unsupported(what) => "capture backend unavailable on this platform: "@ + what@,
        CaptureError::DisplayNotFound(d) => "display not found: "@ + d@,
        CaptureError::WindowNotFound(w) => "window not found: "@ + w@,
        CaptureError::Failed(m) => "capture failed: "@ + m@,
    }
}

impl CaptureError {
    /// The error's message.
    pub fn message(&self) -> (r: String)
        ensures
            r@ == capture_error_text(*self),
    {
        let mut out: Vec<char>;
        match self {
            CaptureError::Unsupported(what) => {
                out = chars_of("capture backend unavailable on this platform: ");
                extend_str(&mut out, what);
            },
            CaptureError::DisplayNotFound(d) => {
                out = chars_of("display not found: ");
                extend_str(&mut out, d.as_str());
            },
            CaptureError::WindowNotFound(w) => {
                out = chars_of("window not found: ");
                extend_str(&mut out, w.as_str());
            },
            CaptureError::Failed(m) => {
                out = chars_of("capture failed: ");
                extend_str(&mut out, m.as_str());
            },
        }
        string_from(out.as_slice())
    }
}

#[derive(Debug)]
pub struct WindowInfo {
    pub id: u32,
    pub title: String,
    pub app_name: String,
    pub width: u32,
    pub height: u32,
    pub x: i32,
    pub y: i32,
}

#[derive(Debug, PartialEq, Eq, Structural)]
pub enum CaptureTarget {
    Display { id: u32 },
    Window { id: u32 },
    Region { x: i32, y: i32, width: u32, height: u32 },
}

/// A captured image: `width * height` pixels of 4 bytes each.
#[derive(Debug)]
pub struct Frame {
    pub width: u32,
    pub height: u32,
    pub rgba: Vec<u8>,
    pub timestamp_ms: u64,
}

/// Frame-local rectangle in pixels.
#[derive(Debug, Clone, Copy, PartialEq, Eq, Structural)]
pub struct PixelRect {
    pub x: u32,
    pub y: u32,
    pub width: u32,
    pub height: u32,
}

/// A rectangle of the virtual desktop (or of one monitor).
#[derive(Debug, Clone, Copy, PartialEq, Eq, Structural)]
pub struct VirtualScreen {
    pub x: i32,
    pub y: i32,
    pub width: u32,
    pub height: u32,
}

/// A point of the virtual desktop.
#[derive(Debug, Clone, Copy, PartialEq, Eq, Structural)]
pub struct ScreenPoint {
    pub x: i32,
    pub y: i32,
}

/// A rectangle starting at `x` with extent `w` has its far edge inside `i32`
/// (the screen-space arithmetic runs in `i32`).
pub open spec fn edge_fits(x: i32, w: u32) -> bool {
    w <= i32::MAX && x + w <= i32::MAX
}

pub open spec fn max_int(a: int, b: int) -> int {
    if a >= b { a } else { b }
}

pub open spec fn min_int(a: int, b: int) -> int {
    if a <= b { a } else { b }
}

impl VirtualScreen {
    /// The overlap of `self` with the rectangle `(x, y, w, h)`:
    /// `(left, top, width, height)`, the extents zero when they do not meet.
    pub open spec fn overlap(self, x: int, y: int, w: int, h: int) -> (int, int, int, int) {
        let left = max_int(x, self.x as int);
        let top = max_int(y, self.y as int);
        let right = min_int(x + w, self.x + self.width);
        let bottom = min_int(y + h, self.y + self.height);
        (left, top, max_int(right - left, 0), max_int(bottom - top, 0))
    }

    /// What `clamp_rect` returns: the overlap unless it is under 2 pixels
    /// on either side.
    pub open spec fn clamped(self, x: int, y: int, w: int, h: int) -> Option<(int, int, int, int)> {
        let o = self.overlap(x, y, w, h);
        if o.2 < 2 || o.3 < 2 {
            None
        } else {
            Some(o)
        }
    }

    pub fn contains_point(&self, px: i32, py: i32) -> (r: bool)
        requires
            edge_fits(self.x, self.width),
            edge_fits(self.y, self.height),
        ensures
            r == (px >= self.x && py >= self.y && px < self.x + self.width && py < self.y
                + self.height),
    {
        px >= self.x && py >= self.y && px < self.x + self.width as i32 && py < self.y
            + self.height as i32
    }

    fn overlap_exec(&self, x: i32, y: i32, width: u32, height: u32) -> (r: (i32, i32, i64, i64))
        requires
            edge_fits(self.x, self.width),
            edge_fits(self.y, self.height),
            edge_fits(x, width),
            edge_fits(y, height),
        ensures
            r.0 as int == self.overlap(x as int, y as int, width as int, height as int).0,
            r.1 as int == self.overlap(x as int, y as int, width as int, height as int).1,
            r.2 as int == self.overlap(x as int, y as int, width as int, height as int).2,
            r.3 as int == self.overlap(x as int, y as int, width as int, height as int).3,
            0 <= r.2 <= self.width,
            0 <= r.3 <= self.height,
            r.2 <= width,
            r.3 <= height,
            r.0 >= self.x,
            r.1 >= self.y,
    {
        let left = if x >= self.x { x } else { self.x };
        let top = if y >= self.y { y } else { self.y };
        let xe = x + width as i32;
        let se = self.x + self.width as i32;
        let right = if xe <= se { xe } else { se };
        let ye = y + height as i32;
        let sb = self.y + self.height as i32;
        let bottom = if ye <= sb { ye } else { sb };
        let w: i64 = if (right as i64) - (left as i64) >= 0 { (right as i64) - (left as i64) } else { 0 };
        let h: i64 = if (bottom as i64) - (top as i64) >= 0 { (bottom as i64) - (top as i64) } else { 0 };
        (left, top, w, h)
    }

    /// Clamp a screen-space rect into this rectangle; `None` if what remains
    /// is under 2 pixels wide or high.
    pub fn clamp_rect(&self, x: i32, y: i32, width: u32, height: u32) -> (r: Option<(i32, i32, u32, u32)>)
        requires
            edge_fits(self.x, self.width),
            edge_fits(self.y, self.height),
            edge_fits(x, width),
            edge_fits(y, height),
        ensures
            match r {
                None => self.clamped(x as int, y as int, width as int, height as int) is None,
                Some(c) => self.clamped(x as int, y as int, width as int, height as int) == Some(
                    (c.0 as int, c.1 as int, c.2 as int, c.3 as int),
                ),
            },
    {
        let (left, top, w, h) = self.overlap_exec(x, y, width, height);
        if w < 2 || h < 2 {
            None
        } else {
            Some((left, top, w as u32, h as u32))
        }
    }

    /// Pixels shared by this rectangle and `(x, y, width, height)`.
    pub fn intersection_area(&self, x: i32, y: i32, width: u32, height: u32) -> (r: i64)
        requires
            edge_fits(self.x, self.width),
            edge_fits(self.y, self.height),
            edge_fits(x, width),
            edge_fits(y, height),
        ensures
            r == self.overlap(x as int, y as int, width as int, height as int).2 * self.overlap(
                x as int,
                y as int,
                width as int,
                height as int,
            ).3,
    {
        let (_, _, w, h) = self.overlap_exec(x, y, width, height);
        assert(0 <= w * h <= (i32::MAX as int) * (i32::MAX as int)) by (nonlinear_arith)
            requires
                0 <= w <= i32::MAX,
                0 <= h <= i32::MAX,
        ;
        w * h
    }

    /// Convert a screen-space rect to crop coordinates inside a bitmap of this
    /// rectangle whose (0,0) pixel maps to (self.x, self.y):
    /// `(even width, even height, crop x, crop y)`.
    pub fn to_crop(&self, x: i32, y: i32, width: u32, height: u32) -> (r: Option<(u32, u32, u32, u32)>)
        requires
            edge_fits(self.x, self.width),
            edge_fits(self.y, self.height),
            edge_fits(x, width),
            edge_fits(y, height),
        ensures
            match self.clamped(x as int, y as int, width as int, height as int) {
                None => r is None,
                Some(c) => r == Some(
                    (
                        even_spec(c.2 as u32),
                        even_spec(c.3 as u32),
                        (c.0 - self.x) as u32,
                        (c.1 - self.y) as u32,
                    ),
                ),
            },
    {
        match self.clamp_rect(x, y, width, height) {
            None => None,
            Some((cx, cy, w, h)) => {
                let crop_x = (cx as i64 - self.x as i64) as u32;
                let crop_y = (cy as i64 - self.y as i64) as u32;
                Some((even(w), even(h), crop_x, crop_y))
            },
        }
    }
}

/// The shared area of two rectangles is no larger than either of them, it
/// is the area of the clamped rectangle when clamping keeps one, and for a
/// single pixel it is 1 exactly when the screen holds that pixel, else 0.
pub proof fn lemma_intersection_area_bounds(s: VirtualScreen, x: i32, y: i32, w: u32, h: u32, px: i32, py: i32)
    ensures
        ({
            let o = s.overlap(x as int, y as int, w as int, h as int);
            &&& 0 <= o.2 * o.3 <= w * h
            &&& o.2 * o.3 <= s.width * s.height
            &&& (s.clamped(x as int, y as int, w as int, h as int) matches Some(c) ==> c.2 * c.3 == o.2
                * o.3)
        }),
        ({
            let q = s.overlap(px as int, py as int, 1, 1);
            q.2 * q.3 == if px >= s.x && py >= s.y && px < s.x + s.width && py < s.y + s.height {
                1int
            } else {
                0int
            }
        }),
{
    let o = s.overlap(x as int, y as int, w as int, h as int);
    assert(0 <= o.2 <= w && o.2 <= s.width);
    assert(0 <= o.3 <= h && o.3 <= s.height);
    assert(0 <= o.2 * o.3 <= w * h) by (nonlinear_arith)
        requires
            0 <= o.2 <= w,
            0 <= o.3 <= h,
    ;
    assert(o.2 * o.3 <= s.width * s.height) by (nonlinear_arith)
        requires
            0 <= o.2 <= s.width,
            0 <= o.3 <= s.height,
    ;
    let q = s.overlap(px as int, py as int, 1, 1);
    assert(q.2 == if px >= s.x && px < s.x + s.width { 1int } else { 0int });
    assert(q.3 == if py >= s.y && py < s.y + s.height { 1int } else { 0int });
}

/// `v` rounded down to even, at least 2.
pub open spec fn even_spec(v: u32) -> u32 {
    if v % 2 == 0 {
        if v >= 2 { v } else { 2 }
    } else {
        if v - 1 >= 2 { (v - 1) as u32 } else { 2 }
    }
}

pub fn even(v: u32) -> (r: u32)
    ensures
        r == even_spec(v),
{
    if v % 2 == 0 {
        if v >= 2 { v } else { 2 }
    } else {
        let d = v - 1;
        if d >= 2 { d } else { 2 }
    }
}

/// OS virtual desktop (union of all monitors) in physical pixels. Without a
/// native monitor API this is a single 1920x1080 screen at the origin.
pub fn virtual_screen() -> (r: VirtualScreen)
    ensures
        r == (VirtualScreen { x: 0, y: 0, width: 1920, height: 1080 }),
{
    VirtualScreen { x: 0, y: 0, width: 1920, height: 1080 }
}

/// Physical rectangles of each monitor (same space as `gdigrab`).
pub fn list_monitor_rects() -> (r: Vec<VirtualScreen>)
    ensures
        r@ == seq![VirtualScreen { x: 0, y: 0, width: 1920, height: 1080 }],
{
    let mut v: Vec<VirtualScreen> = Vec::new();
    v.push(virtual_screen());
    v
}

/// All of `rects` keep their far edges inside `i32`.
pub open spec fn rects_fit(rects: Seq<VirtualScreen>) -> bool {
    forall|i: int|
        0 <= i < rects.len() ==> edge_fits(#[trigger] rects[i].x, rects[i].width) && edge_fits(
            rects[i].y,
            rects[i].height,
        )
}

/// The index of the first largest overlap among the first `n` rects, with
/// that area (index 0 and area 0 when none overlaps).
pub open spec fn best_overlap(rects: Seq<VirtualScreen>, n: int, x: int, y: int, w: int, h: int) -> (int, int)
    decreases n,
{
    if n <= 0 {
        (0, 0)
    } else {
        let prev = best_overlap(rects, n - 1, x, y, w, h);
        let o = rects[n - 1].overlap(x, y, w, h);
        if o.2 * o.3 > prev.1 {
            (n - 1, o.2 * o.3)
        } else {
            prev
        }
    }
}

/// First index `>= i` of a rect holding the point `(x, y)`.
pub open spec fn first_containing(rects: Seq<VirtualScreen>, i: int, x: int, y: int) -> Option<int>
    decreases rects.len() - i,
{
    if i < 0 || i >= rects.len() {
        None
    } else if x >= rects[i].x && y >= rects[i].y && x < rects[i].x + rects[i].width && y
        < rects[i].y + rects[i].height {
        Some(i)
    } else {
        first_containing(rects, i + 1, x, y)
    }
}

/// The monitor for a screen-space rect: the first with the largest overlap,
/// else the first holding its top-left corner, else 0.
pub open spec fn monitor_for(rects: Seq<VirtualScreen>, x: int, y: int, w: int, h: int) -> int {
    let best = best_overlap(rects, rects.len() as int, x, y, w, h);
    if best.1 > 0 {
        best.0
    } else {
        match first_containing(rects, 0, x, y) {
            Some(i) => i,
            None => 0,
        }
    }
}

proof fn lemma_best_overlap_bounds(rects: Seq<VirtualScreen>, n: int, x: int, y: int, w: int, h: int)
    requires
        0 <= n <= rects.len(),
    ensures
        0 <= best_overlap(rects, n, x, y, w, h).0 < (if n == 0 { 1 } else { n }),
        best_overlap(rects, n, x, y, w, h).1 >= 0,
    decreases n,
{
    if n > 0 {
        lemma_best_overlap_bounds(rects, n - 1, x, y, w, h);
        let o = rects[n - 1].overlap(x, y, w, h);
        assert(o.2 * o.3 >= 0) by (nonlinear_arith)
            requires
                o.2 >= 0,
                o.3 >= 0,
        ;
    }
}

/// Pixels shared by `r` and the rectangle `(x, y, w, h)`.
pub open spec fn shared_pixels(r: VirtualScreen, x: int, y: int, w: int, h: int) -> int {
    let left = max_int(x, r.x as int);
    let top = max_int(y, r.y as int);
    let right = min_int(x + w, r.x + r.width);
    let bottom = min_int(y + h, r.y + r.height);
    max_int(right - left, 0) * max_int(bottom - top, 0)
}

proof fn lemma_shared_pixels_nonneg(r: VirtualScreen, x: int, y: int, w: int, h: int)
    ensures
        shared_pixels(r, x, y, w, h) >= 0,
        shared_pixels(r, x, y, w, h) == r.overlap(x, y, w, h).2 * r.overlap(x, y, w, h).3,
{
    let a = max_int(min_int(x + w, r.x + r.width) - max_int(x, r.x as int), 0);
    let b = max_int(min_int(y + h, r.y + r.height) - max_int(y, r.y as int), 0);
    assert(a * b >= 0) by (nonlinear_arith)
        requires
            a >= 0,
            b >= 0,
    ;
}

proof fn lemma_best_overlap_is_max(rects: Seq<VirtualScreen>, n: int, x: int, y: int, w: int, h: int)
    requires
        0 <= n <= rects.len(),
    ensures
        best_overlap(rects, n, x, y, w, h).1 >= 0,
        best_overlap(rects, n, x, y, w, h).1 > 0 ==> 0 <= best_overlap(rects, n, x, y, w, h).0 < n
            && shared_pixels(rects[best_overlap(rects, n, x, y, w, h).0], x, y, w, h) == best_overlap(
            rects,
            n,
            x,
            y,
            w,
            h,
        ).1,
        forall|i: int|
            0 <= i < n ==> #[trigger] shared_pixels(rects[i], x, y, w, h) <= best_overlap(
                rects,
                n,
                x,
                y,
                w,
                h,
            ).1,
        best_overlap(rects, n, x, y, w, h).1 > 0 ==> forall|i: int|
            0 <= i < best_overlap(rects, n, x, y, w, h).0 ==> #[trigger] shared_pixels(
                rects[i],
                x,
                y,
                w,
                h,
            ) < best_overlap(rects, n, x, y, w, h).1,
    decreases n,
{
    if n > 0 {
        lemma_best_overlap_is_max(rects, n - 1, x, y, w, h);
        lemma_shared_pixels_nonneg(rects[n - 1], x, y, w, h);
    }
}

/// When the rect overlaps some monitor, the one chosen shares the most
/// pixels with it, and no monitor before it shares as many (the first
/// largest overlap wins).
pub proof fn lemma_monitor_largest_overlap(rects: Seq<VirtualScreen>, x: int, y: int, w: int, h: int, k: int)
    requires
        0 <= k < rects.len(),
        shared_pixels(rects[k], x, y, w, h) > 0,
    ensures
        0 <= monitor_for(rects, x, y, w, h) < rects.len(),
        forall|i: int|
            0 <= i < rects.len() ==> #[trigger] shared_pixels(rects[i], x, y, w, h) <= shared_pixels(
                rects[monitor_for(rects, x, y, w, h)],
                x,
                y,
                w,
                h,
            ),
        forall|i: int|
            0 <= i < monitor_for(rects, x, y, w, h) ==> #[trigger] shared_pixels(rects[i], x, y, w, h)
                < shared_pixels(rects[monitor_for(rects, x, y, w, h)], x, y, w, h),
{
    lemma_best_overlap_is_max(rects, rects.len() as int, x, y, w, h);
    assert(shared_pixels(rects[k], x, y, w, h) <= best_overlap(rects, rects.len() as int, x, y, w, h).1);
}

/// The monitor among `rects` for a screen-space rect.
pub fn monitor_index_in(rects: &[VirtualScreen], x: i32, y: i32, width: u32, height: u32) -> (r: u32)
    requires
        rects_fit(rects@),
        rects@.len() <= u32::MAX,
        edge_fits(x, width),
        edge_fits(y, height),
    ensures
        r as int == monitor_for(rects@, x as int, y as int, width as int, height as int),
{
    let ghost (xi, yi, wi, hi) = (x as int, y as int, width as int, height as int);
    let mut best_idx: u32 = 0;
    let mut best_area: i64 = 0;
    let mut i: usize = 0;
    while i < rects.len()
        invariant
            i <= rects@.len() <= u32::MAX,
            rects_fit(rects@),
            edge_fits(x, width),
            edge_fits(y, height),
            (best_idx as int, best_area as int) == best_overlap(rects@, i as int, xi, yi, wi, hi),
            xi == x as int,
            yi == y as int,
            wi == width as int,
            hi == height as int,
        decreases rects@.len() - i,
    {
        let area = rects[i].intersection_area(x, y, width, height);
        if area > best_area {
            best_area = area;
            best_idx = i as u32;
        }
        i = i + 1;
    }
    if best_area > 0 {
        return best_idx;
    }
    let mut j: usize = 0;
    while j < rects.len()
        invariant
            j <= rects@.len() <= u32::MAX,
            rects_fit(rects@),
            first_containing(rects@, 0, xi, yi) == first_containing(rects@, j as int, xi, yi),
            xi == x as int,
            yi == y as int,
            wi == width as int,
            hi == height as int,
            best_overlap(rects@, rects@.len() as int, xi, yi, wi, hi).1 <= 0,
        decreases rects@.len() - j,
    {
        if rects[j].contains_point(x, y) {
            proof {
                assert(first_containing(rects@, j as int, xi, yi) == Some(j as int));
                assert(first_containing(rects@, 0, xi, yi) == Some(j as int));
                assert(best_overlap(rects@, rects@.len() as int, xi, yi, wi, hi).1 <= 0);
                assert(monitor_for(rects@, xi, yi, wi, hi) == j as int);
            }
            return j as u32;
        }
        j = j + 1;
    }
    0
}

/// Prefer the monitor with the largest overlap for a screen-space rect.
/// Falls back to the monitor containing the top-left, then index 0.
pub fn monitor_index_for_rect(x: i32, y: i32, width: u32, height: u32) -> (r: u32)
    requires
        edge_fits(x, width),
        edge_fits(y, height),
    ensures
        r as int == monitor_for(list_monitor_rects_spec(), x as int, y as int, width as int, height as int),
{
    let rects = list_monitor_rects();
    monitor_index_in(rects.as_slice(), x, y, width, height)
}

/// The monitors `list_monitor_rects` reports.
pub open spec fn list_monitor_rects_spec() -> Seq<VirtualScreen> {
    seq![VirtualScreen { x: 0, y: 0, width: 1920, height: 1080 }]
}

/// Current cursor position in physical screen pixels; the origin when no
/// native cursor API is available.
pub fn cursor_position() -> (r: Result<ScreenPoint, CaptureError>)
    ensures
        r == Ok::<ScreenPoint, CaptureError>(ScreenPoint { x: 0, y: 0 }),
{
    Ok(ScreenPoint { x: 0, y: 0 })
}

/// Resolve a window previously identified by HWND-derived id; no window is
/// known without a native window API.
pub fn window_by_id(id: u32) -> (r: Result<Option<WindowInfo>, CaptureError>)
    ensures
        r matches Ok(None),
{
    Ok(None)
}

/// Enumerate visible top-level windows; none without a native window API.
pub fn list_windows() -> (r: Result<Vec<WindowInfo>, CaptureError>)
    ensures
        r matches Ok(v) && v@.len() == 0,
{
    Ok(Vec::new())
}

/// Top-level window under the OS cursor, skipping `skip_pid`; none without a
/// native window API.
pub fn window_under_cursor(skip_pid: Option<u32>) -> (r: Result<Option<WindowInfo>, CaptureError>)
    ensures
        r matches Ok(None),
{
    Ok(None)
}

/// Capture a window by HWND-derived id: Windows-only.
pub fn capture_window_by_id(id: u32) -> (r: Result<Frame, CaptureError>)
    ensures
        r matches Err(CaptureError::Unsupported(msg)) && msg@ == "window HWND capture is Windows-only"@,
{
    Err(CaptureError::Unsupported("window HWND capture is Windows-only"))
}

/// Release the cached screen-duplication session (none is kept here).
pub fn release_preview_session() {
}

/// The default still-capture backend.
pub struct XcapCaptureBackend;

impl XcapCaptureBackend {
    pub fn new() -> (r: Self) {
        XcapCaptureBackend
    }

    /// The backend's name on this platform (Linux).
    pub fn platform_name(&self) -> (r: &'static str)
        ensures
            r@ == "linux-xcap"@,
    {
        "linux-xcap"
    }

    /// Whether frames can be streamed from it: they can.
    pub fn supports_streaming(&self) -> (r: bool)
        ensures
            r,
    {
        true
    }
}

/// A backend for platforms without capture support.
pub struct UnsupportedCaptureBackend {
    pub platform: &'static str,
    pub hint: &'static str,
}

impl UnsupportedCaptureBackend {
    pub fn platform_name(&self) -> (r: &'static str)
        ensures
            r == self.platform,
    {
        self.platform
    }

    /// Whether frames can be streamed from it: they cannot.
    pub fn supports_streaming(&self) -> (r: bool)
        ensures
            !r,
    {
        false
    }

    /// Listing windows fails with the backend's hint.
    pub fn list_windows(&self) -> (r: Result<Vec<WindowInfo>, CaptureError>)
        ensures
            r matches Err(CaptureError::Unsupported(h)) && h == self.hint,
    {
        Err(CaptureError::Unsupported(self.hint))
    }

    /// Capturing fails with the backend's hint.
    pub fn capture_frame(&self, target: &CaptureTarget) -> (r: Result<Frame, CaptureError>)
        ensures
            r matches Err(CaptureError::Unsupported(h)) && h == self.hint,
    {
        Err(CaptureError::Unsupported(self.hint))
    }
}

/// The smallest (min x, min y) and largest (max right, max bottom) edges
/// of `rects`, starting from the extreme `i32` values.
pub open spec fn union_bounds(rects: Seq<VirtualScreen>) -> (int, int, int, int)
    decreases rects.len(),
{
    if rects.len() == 0 {
        (i32::MAX as int, i32::MAX as int, i32::MIN as int, i32::MIN as int)
    } else {
        let (a, b, c, d) = union_bounds(rects.drop_last());
        let r = rects.last();
        (
            if r.x < a { r.x as int } else { a },
            if r.y < b { r.y as int } else { b },
            max_int(c, r.x + r.width),
            max_int(d, r.y + r.height),
        )
    }
}

/// The bounding box of `rects`, if they span any area.
pub open spec fn union_of(rects: Seq<VirtualScreen>) -> Option<VirtualScreen> {
    let (a, b, c, d) = union_bounds(rects);
    if rects.len() == 0 || a >= c || b >= d {
        None
    } else {
        Some(VirtualScreen { x: a as i32, y: b as i32, width: (c - a) as u32, height: (d - b) as u32 })
    }
}

pub proof fn lemma_union_bounds_range(rects: Seq<VirtualScreen>)
    requires
        forall|i: int| 0 <= i < rects.len() ==> edge_fits(#[trigger] rects[i].x, rects[i].width)
            && edge_fits(rects[i].y, rects[i].height),
    ensures
        i32::MIN <= union_bounds(rects).0 <= i32::MAX,
        i32::MIN <= union_bounds(rects).1 <= i32::MAX,
        i32::MIN <= union_bounds(rects).2 <= i32::MAX,
        i32::MIN <= union_bounds(rects).3 <= i32::MAX,
        rects.len() > 0 ==> union_bounds(rects).0 <= union_bounds(rects).2 && union_bounds(rects).1
            <= union_bounds(rects).3,
    decreases rects.len(),
{
    if rects.len() > 0 {
        let init = rects.drop_last();
        assert forall|i: int| 0 <= i < init.len() implies edge_fits(#[trigger] init[i].x, init[i].width)
            && edge_fits(init[i].y, init[i].height) by {
            assert(init[i] == rects[i]);
        }
        lemma_union_bounds_range(init);
        assert(edge_fits(rects[rects.len() - 1].x, rects[rects.len() - 1].width));
        assert(edge_fits(rects[rects.len() - 1].y, rects[rects.len() - 1].height));
    }
}

/// The bounding box of all monitors, if they span any area.
pub fn union_rects(rects: &[VirtualScreen]) -> (r: Option<VirtualScreen>)
    requires
        forall|i: int| 0 <= i < rects@.len() ==> edge_fits(#[trigger] rects@[i].x, rects@[i].width)
            && edge_fits(rects@[i].y, rects@[i].height),
    ensures
        r == union_of(rects@),
{
    let mut min_x: i32 = i32::MAX;
    let mut min_y: i32 = i32::MAX;
    let mut max_x: i32 = i32::MIN;
    let mut max_y: i32 = i32::MIN;
    let mut k: usize = 0;
    proof {
        assert(rects@.take(0) =~= Seq::<VirtualScreen>::empty());
    }
    while k < rects.len()
        invariant
            k <= rects@.len(),
            forall|i: int| 0 <= i < rects@.len() ==> edge_fits(#[trigger] rects@[i].x, rects@[i].width)
                && edge_fits(rects@[i].y, rects@[i].height),
            union_bounds(rects@.take(k as int)) == (min_x as int, min_y as int, max_x as int, max_y as int),
        decreases rects@.len() - k,
    {
        let r = rects[k];
        proof {
            let t = rects@.take(k + 1);
            assert(t.drop_last() == rects@.take(k as int));
            assert(t.last() == r);
            assert(edge_fits(rects@[k as int].x, rects@[k as int].width));
            assert(edge_fits(rects@[k as int].y, rects@[k as int].height));
        }
        if r.x < min_x {
            min_x = r.x;
        }
        if r.y < min_y {
            min_y = r.y;
        }
        let right = r.x + r.width as i32;
        let bottom = r.y + r.height as i32;
        if right > max_x {
            max_x = right;
        }
        if bottom > max_y {
            max_y = bottom;
        }
        k = k + 1;
    }
    proof {
        assert(rects@.take(rects@.len() as int) == rects@);
        lemma_union_bounds_range(rects@);
    }
    if rects.len() == 0 || min_x >= max_x || min_y >= max_y {
        None
    } else {
        Some(
            VirtualScreen {
                x: min_x,
                y: min_y,
                width: (max_x as i64 - min_x as i64) as u32,
                height: (max_y as i64 - min_y as i64) as u32,
            },
        )
    }
}

/// `|v|`.
pub open spec fn abs_int(v: int) -> int {
    if v < 0 { -v } else { v }
}

/// How far a monitor's centre is from (`cx`, `cy`), in steps along the
/// axes.
pub open spec fn centre_distance(m: VirtualScreen, cx: int, cy: int) -> int {
    abs_int(m.x + m.width / 2 - cx) + abs_int(m.y + m.height / 2 - cy)
}

/// The first of `ms[..n]` nearest to (`cx`, `cy`).
pub open spec fn nearest_monitor(ms: Seq<VirtualScreen>, n: int, cx: int, cy: int) -> int
    decreases n,
{
    if n <= 1 {
        0
    } else {
        let b = nearest_monitor(ms, n - 1, cx, cy);
        if centre_distance(ms[n - 1], cx, cy) < centre_distance(ms[b], cx, cy) {
            n - 1
        } else {
            b
        }
    }
}

proof fn lemma_nearest_in_range(ms: Seq<VirtualScreen>, n: int, cx: int, cy: int)
    requires
        1 <= n,
    ensures
        0 <= nearest_monitor(ms, n, cx, cy) < n,
    decreases n,
{
    if n > 1 {
        lemma_nearest_in_range(ms, n - 1, cx, cy);
    }
}

/// Where a display rect reported by the capture backend (possibly scaled)
/// really lies: the monitor holding its centre, else the monitor whose
/// centre is nearest, else the rect clamped into the virtual screen, else
/// the rect itself.
pub open spec fn normalized_rect(
    ms: Seq<VirtualScreen>,
    screen: VirtualScreen,
    x: i32,
    y: i32,
    w: u32,
    h: u32,
) -> (int, int, int, int) {
    let cx = x + w / 2;
    let cy = y + h / 2;
    match first_containing(ms, 0, cx, cy) {
        Some(i) => (ms[i].x as int, ms[i].y as int, ms[i].width as int, ms[i].height as int),
        None => if ms.len() > 0 {
            let m = ms[nearest_monitor(ms, ms.len() as int, cx, cy)];
            (m.x as int, m.y as int, m.width as int, m.height as int)
        } else {
            match screen.clamped(x as int, y as int, w as int, h as int) {
                Some(c) => c,
                None => (x as int, y as int, w as int, h as int),
            }
        },
    }
}

/// A rectangle whose corner and far edges fit `i32` and whose sides fit.
pub open spec fn fits_i32(r: (int, int, int, int)) -> bool {
    &&& i32::MIN <= r.0 <= i32::MAX
    &&& i32::MIN <= r.1 <= i32::MAX
    &&& 0 <= r.2 <= i32::MAX
    &&& 0 <= r.3 <= i32::MAX
    &&& r.0 + r.2 <= i32::MAX
    &&& r.1 + r.3 <= i32::MAX
}

/// Where a display rect is placed fits `i32` when every rectangle it may
/// come from does.
pub proof fn lemma_normalized_fits(ms: Seq<VirtualScreen>, screen: VirtualScreen, x: i32, y: i32, w: u32, h: u32)
    requires
        forall|i: int| 0 <= i < ms.len() ==> edge_fits(#[trigger] ms[i].x, ms[i].width) && edge_fits(
            ms[i].y,
            ms[i].height,
        ),
        edge_fits(screen.x, screen.width),
        edge_fits(screen.y, screen.height),
        edge_fits(x, w),
        edge_fits(y, h),
    ensures
        fits_i32(normalized_rect(ms, screen, x, y, w, h)),
{
    let cx = x + w / 2;
    let cy = y + h / 2;
    match first_containing(ms, 0, cx, cy) {
        Some(i) => {
            lemma_first_containing_bounds(ms, 0, cx, cy);
            assert(edge_fits(ms[i].x, ms[i].width) && edge_fits(ms[i].y, ms[i].height));
        },
        None => {
            if ms.len() > 0 {
                lemma_nearest_in_range(ms, ms.len() as int, cx, cy);
                let k = nearest_monitor(ms, ms.len() as int, cx, cy);
                assert(edge_fits(ms[k].x, ms[k].width) && edge_fits(ms[k].y, ms[k].height));
            }
        },
    }
}

proof fn lemma_first_containing_bounds(ms: Seq<VirtualScreen>, i: int, x: int, y: int)
    ensures
        first_containing(ms, i, x, y) matches Some(k) ==> 0 <= i <= k < ms.len(),
    decreases ms.len() - i,
{
    if 0 <= i < ms.len() {
        lemma_first_containing_bounds(ms, i + 1, x, y);
    }
}

/// The distance of every monitor's centre fits the arithmetic it is
/// computed with.
pub open spec fn distances_fit(ms: Seq<VirtualScreen>, cx: int, cy: int) -> bool {
    forall|i: int|
        0 <= i < ms.len() ==> {
            let dx = ms[i].x + ms[i].width / 2 - cx;
            let dy = ms[i].y + ms[i].height / 2 - cy;
            &&& i32::MIN <= dx <= i32::MAX
            &&& i32::MIN <= dy <= i32::MAX
            &&& #[trigger] centre_distance(ms[i], cx, cy) <= u32::MAX
        }
}

fn centre_dist(m: &VirtualScreen, cx: i32, cy: i32) -> (r: u32)
    requires
        edge_fits(m.x, m.width),
        edge_fits(m.y, m.height),
        i32::MIN <= m.x + m.width / 2 - cx <= i32::MAX,
        i32::MIN <= m.y + m.height / 2 - cy <= i32::MAX,
        centre_distance(*m, cx as int, cy as int) <= u32::MAX,
    ensures
        r == centre_distance(*m, cx as int, cy as int),
{
    let mx = m.x + (m.width as i32) / 2;
    let my = m.y + (m.height as i32) / 2;
    let dx = mx - cx;
    let dy = my - cy;
    let ax: u32 = if dx < 0 { (-(dx as i64)) as u32 } else { dx as u32 };
    let ay: u32 = if dy < 0 { (-(dy as i64)) as u32 } else { dy as u32 };
    ax + ay
}

/// Where a display rect reported by the capture backend really lies,
/// given the monitors and the virtual screen.
pub fn normalize_display_rect_among(
    monitors: &[VirtualScreen],
    screen: &VirtualScreen,
    x: i32,
    y: i32,
    width: u32,
    height: u32,
) -> (r: (i32, i32, u32, u32))
    requires
        forall|i: int| 0 <= i < monitors@.len() ==> edge_fits(#[trigger] monitors@[i].x, monitors@[i].width)
            && edge_fits(monitors@[i].y, monitors@[i].height),
        edge_fits(screen.x, screen.width),
        edge_fits(screen.y, screen.height),
        edge_fits(x, width),
        edge_fits(y, height),
        distances_fit(monitors@, x + width / 2, y + height / 2),
    ensures
        (r.0 as int, r.1 as int, r.2 as int, r.3 as int) == normalized_rect(monitors@, *screen, x, y, width, height),
{
    let cx = x + (width as i32) / 2;
    let cy = y + (height as i32) / 2;
    let mut i: usize = 0;
    while i < monitors.len()
        invariant
            i <= monitors@.len(),
            cx == x + width / 2,
            cy == y + height / 2,
            forall|k: int| 0 <= k < monitors@.len() ==> edge_fits(#[trigger] monitors@[k].x, monitors@[k].width)
                && edge_fits(monitors@[k].y, monitors@[k].height),
            first_containing(monitors@, 0, cx as int, cy as int) == first_containing(monitors@, i as int, cx as int, cy as int),
        decreases monitors@.len() - i,
    {
        let m = monitors[i];
        proof {
            assert(edge_fits(monitors@[i as int].x, monitors@[i as int].width));
            assert(edge_fits(monitors@[i as int].y, monitors@[i as int].height));
        }
        if m.contains_point(cx, cy) {
            return (m.x, m.y, m.width, m.height);
        }
        i = i + 1;
    }
    if monitors.len() > 0 {
        let mut best: usize = 0;
        proof {
            assert(edge_fits(monitors@[0].x, monitors@[0].width));
            assert(edge_fits(monitors@[0].y, monitors@[0].height));
            assert(centre_distance(monitors@[0], cx as int, cy as int) <= u32::MAX);
        }
        let mut best_d = centre_dist(&monitors[0], cx, cy);
        let mut k: usize = 1;
        while k < monitors.len()
            invariant
                1 <= k <= monitors@.len(),
                cx == x + width / 2,
                cy == y + height / 2,
                forall|q: int| 0 <= q < monitors@.len() ==> edge_fits(#[trigger] monitors@[q].x, monitors@[q].width)
                    && edge_fits(monitors@[q].y, monitors@[q].height),
                distances_fit(monitors@, cx as int, cy as int),
                best == nearest_monitor(monitors@, k as int, cx as int, cy as int),
                best < k,
                best_d == centre_distance(monitors@[best as int], cx as int, cy as int),
            decreases monitors@.len() - k,
        {
            proof {
                assert(edge_fits(monitors@[k as int].x, monitors@[k as int].width));
                assert(edge_fits(monitors@[k as int].y, monitors@[k as int].height));
                assert(centre_distance(monitors@[k as int], cx as int, cy as int) <= u32::MAX);
            }
            let d = centre_dist(&monitors[k], cx, cy);
            if d < best_d {
                best = k;
                best_d = d;
            }
            k = k + 1;
        }
        let m = monitors[best];
        return (m.x, m.y, m.width, m.height);
    }
    match screen.clamp_rect(x, y, width, height) {
        Some(c) => c,
        None => (x, y, width, height),
    }
}

/// Where a display rect reported by the capture backend really lies on
/// this machine's monitors.
pub fn normalize_display_rect(x: i32, y: i32, width: u32, height: u32, screen: &VirtualScreen) -> (r: (i32, i32, u32, u32))
    requires
        edge_fits(screen.x, screen.width),
        edge_fits(screen.y, screen.height),
        edge_fits(x, width),
        edge_fits(y, height),
        distances_fit(list_monitor_rects_spec(), x + width / 2, y + height / 2),
    ensures
        (r.0 as int, r.1 as int, r.2 as int, r.3 as int) == normalized_rect(list_monitor_rects_spec(), *screen, x, y, width, height),
{
    let monitors = list_monitor_rects();
    proof {
        assert(monitors@ == list_monitor_rects_spec());
    }
    normalize_display_rect_among(monitors.as_slice(), screen, x, y, width, height)
}

/// The monitor a display id names, and its origin; a display beyond the
/// monitors is not found.
pub fn monitor_origin_among(monitors: &[VirtualScreen], display_id: u32) -> (r: Result<(i32, i32, VirtualScreen), CaptureError>)
    ensures
        match r {
            Ok((x, y, m)) => display_id < monitors@.len() && m == monitors@[display_id as int] && x
                == m.x && y == m.y,
            Err(e) => display_id >= monitors@.len() && (e matches CaptureError::DisplayNotFound(d)
                && d@ == crate::text::decimal(display_id as nat)),
        },
{
    if (display_id as usize) < monitors.len() {
        let m = monitors[display_id as usize];
        Ok((m.x, m.y, m))
    } else {
        Err(CaptureError::DisplayNotFound(crate::text::decimal_string(display_id as u64)))
    }
}

/// The display a point lies on: the first monitor holding it, else 0.
pub fn display_for_point_among(monitors: &[VirtualScreen], x: i32, y: i32) -> (r: u32)
    requires
        rects_fit(monitors@),
        monitors@.len() <= u32::MAX,
    ensures
        r as int == match first_containing(monitors@, 0, x as int, y as int) {
            Some(i) => i,
            None => 0,
        },
{
    let mut i: usize = 0;
    while i < monitors.len()
        invariant
            i <= monitors@.len(),
            monitors@.len() <= u32::MAX,
            rects_fit(monitors@),
            first_containing(monitors@, 0, x as int, y as int) == first_containing(
                monitors@,
                i as int,
                x as int,
                y as int,
            ),
        decreases monitors@.len() - i,
    {
        let m = monitors[i];
        proof {
            assert(edge_fits(monitors@[i as int].x, monitors@[i as int].width));
        }
        if m.contains_point(x, y) {
            return i as u32;
        }
        i = i + 1;
    }
    0
}

/// Where a capture target lies: (display, x, y, width, height). A display
/// is its monitor's rectangle; a region or a window (when found) is
/// itself, on the monitor it overlaps most.
pub fn resolve_target_among(
    target: &CaptureTarget,
    monitors: &[VirtualScreen],
    window: Option<&WindowInfo>,
) -> (r: Result<(u32, i32, i32, u32, u32), CaptureError>)
    requires
        rects_fit(monitors@),
        monitors@.len() <= u32::MAX,
        *target matches CaptureTarget::Region { x, y, width, height } ==> edge_fits(x, width)
            && edge_fits(y, height),
        window matches Some(w) ==> edge_fits(w.x, w.width) && edge_fits(w.y, w.height),
    ensures
        match *target {
            CaptureTarget::Display { id } => match r {
                Ok(t) => id < monitors@.len() && t == (
                    id,
                    monitors@[id as int].x,
                    monitors@[id as int].y,
                    monitors@[id as int].width,
                    monitors@[id as int].height,
                ),
                Err(e) => id >= monitors@.len() && (e matches CaptureError::DisplayNotFound(d) && d@
                    == crate::text::decimal(id as nat)),
            },
            CaptureTarget::Region { x, y, width, height } => (r matches Ok(t) && t.1 == x && t.2 == y
                && t.3 == width && t.4 == height && t.0 as int == monitor_for(
                monitors@,
                x as int,
                y as int,
                width as int,
                height as int,
            )),
            CaptureTarget::Window { id } => match window {
                Some(w) => (r matches Ok(t) && t.1 == w.x && t.2 == w.y && t.3 == w.width && t.4
                    == w.height && t.0 as int == monitor_for(
                    monitors@,
                    w.x as int,
                    w.y as int,
                    w.width as int,
                    w.height as int,
                )),
                None => (r matches Err(CaptureError::WindowNotFound(s)) && s@ == crate::text::decimal(
                    id as nat,
                )),
            },
        },
{
    match target {
        CaptureTarget::Display { id } => {
            let (ox, oy, rect) = monitor_origin_among(monitors, *id)?;
            Ok((*id, ox, oy, rect.width, rect.height))
        },
        CaptureTarget::Region { x, y, width, height } => {
            let id = monitor_index_in(monitors, *x, *y, *width, *height);
            Ok((id, *x, *y, *width, *height))
        },
        CaptureTarget::Window { id } => match window {
            Some(w) => {
                let m = monitor_index_in(monitors, w.x, w.y, w.width, w.height);
                Ok((m, w.x, w.y, w.width, w.height))
            },
            None => Err(CaptureError::WindowNotFound(crate::text::decimal_string(*id as u64))),
        },
    }
}

/// The monitor a still capture of a region at (`x`, `y`) is taken from: the
/// first holding the point, else the first monitor.
pub open spec fn region_monitor(ms: Seq<VirtualScreen>, x: int, y: int) -> Option<int> {
    match first_containing(ms, 0, x, y) {
        Some(i) => Some(i),
        None => if ms.len() > 0 {
            Some(0)
        } else {
            None
        },
    }
}

/// `v` floored at 0.
pub open spec fn floor_zero(v: int) -> int {
    if v < 0 {
        0
    } else {
        v
    }
}

/// The monitor and the offset inside its image that a still capture of a
/// region at (`x`, `y`) is cut from; an error when there is no monitor.
pub fn region_source(monitors: &[VirtualScreen], x: i32, y: i32) -> (r: Result<(usize, u32, u32), CaptureError>)
    requires
        rects_fit(monitors@),
        region_monitor(monitors@, x as int, y as int) matches Some(i) ==> i32::MIN <= x
            - monitors@[i].x <= i32::MAX && i32::MIN <= y - monitors@[i].y <= i32::MAX,
    ensures
        match region_monitor(monitors@, x as int, y as int) {
            Some(i) => r matches Ok((k, rx, ry)) && k == i && rx == floor_zero(x - monitors@[i].x)
                && ry == floor_zero(y - monitors@[i].y),
            None => r matches Err(CaptureError::Failed(m)) && m@ == "no monitor for region"@,
        },
{
    let mut i: usize = 0;
    let mut found: Option<usize> = None;
    while i < monitors.len()
        invariant_except_break
            found is None,
            first_containing(monitors@, 0, x as int, y as int) == first_containing(
                monitors@,
                i as int,
                x as int,
                y as int,
            ),
        invariant
            i <= monitors@.len(),
            rects_fit(monitors@),
        ensures
            match found {
                Some(k) => k < monitors@.len() && first_containing(monitors@, 0, x as int, y as int)
                    == Some(k as int),
                None => first_containing(monitors@, 0, x as int, y as int) is None,
            },
        decreases monitors@.len() - i,
    {
        let m = monitors[i];
        proof {
            assert(edge_fits(monitors@[i as int].x, monitors@[i as int].width));
        }
        if m.contains_point(x, y) {
            found = Some(i);
            break;
        }
        i = i + 1;
    }
    let k = match found {
        Some(k) => k,
        None => {
            if monitors.len() == 0 {
                return Err(CaptureError::Failed(crate::text::owned("no monitor for region")));
            }
            0
        },
    };
    let m = monitors[k];
    let dx = x - m.x;
    let dy = y - m.y;
    let rx: u32 = if dx < 0 { 0 } else { dx as u32 };
    let ry: u32 = if dy < 0 { 0 } else { dy as u32 };
    Ok((k, rx, ry))
}

/// Where a preview frame's content starts on the virtual desktop: a
/// display's origin, a region's corner, a window's corner; none for a
/// display or window that does not exist.
pub fn preview_origin(target: &CaptureTarget, monitors: &[VirtualScreen], window: Option<&WindowInfo>) -> (r: Option<(i32, i32)>)
    ensures
        r == match *target {
            CaptureTarget::Display { id } => if id < monitors@.len() {
                Some((monitors@[id as int].x, monitors@[id as int].y))
            } else {
                None
            },
            CaptureTarget::Region { x, y, .. } => Some((x, y)),
            CaptureTarget::Window { .. } => match window {
                Some(w) => Some((w.x, w.y)),
                None => None,
            },
        },
{
    match target {
        CaptureTarget::Display { id } => {
            if (*id as usize) < monitors.len() {
                let m = monitors[*id as usize];
                Some((m.x, m.y))
            } else {
                None
            }
        },
        CaptureTarget::Region { x, y, .. } => Some((*x, *y)),
        CaptureTarget::Window { .. } => match window {
            Some(w) => Some((w.x, w.y)),
            None => None,
        },
    }
}

/// Origin and rectangle of display `display_id` among this machine's
/// monitors.
pub fn monitor_origin(display_id: u32) -> (r: Result<(i32, i32, VirtualScreen), CaptureError>)
    ensures
        match r {
            Ok((x, y, m)) => display_id < list_monitor_rects_spec().len() && m
                == list_monitor_rects_spec()[display_id as int] && x == m.x && y == m.y,
            Err(e) => display_id >= list_monitor_rects_spec().len() && (e matches CaptureError::DisplayNotFound(d)
                && d@ == crate::text::decimal(display_id as nat)),
        },
{
    let rects = list_monitor_rects();
    monitor_origin_among(rects.as_slice(), display_id)
}

/// The display of this machine that a point lies on (0 when none holds it).
pub fn display_for_point(x: i32, y: i32) -> (r: Result<u32, CaptureError>)
    ensures
        r matches Ok(i) && i as int == match first_containing(list_monitor_rects_spec(), 0, x as int, y as int) {
            Some(k) => k,
            None => 0,
        },
{
    let rects = list_monitor_rects();
    proof {
        assert(rects_fit(rects@));
    }
    Ok(display_for_point_among(rects.as_slice(), x, y))
}

/// What a recording of `target` captures on this machine: the display
/// index and its rectangle, like `resolve_target_among` with this
/// machine's monitors and windows.
pub fn resolve_target(target: &CaptureTarget) -> (r: Result<(u32, i32, i32, u32, u32), CaptureError>)
    requires
        *target matches CaptureTarget::Region { x, y, width, height } ==> edge_fits(x, width)
            && edge_fits(y, height),
    ensures
        match *target {
            CaptureTarget::Display { id } => match r {
                Ok(t) => id < list_monitor_rects_spec().len() && t == (
                    id,
                    list_monitor_rects_spec()[id as int].x,
                    list_monitor_rects_spec()[id as int].y,
                    list_monitor_rects_spec()[id as int].width,
                    list_monitor_rects_spec()[id as int].height,
                ),
                Err(e) => id >= list_monitor_rects_spec().len() && (e matches CaptureError::DisplayNotFound(d)
                    && d@ == crate::text::decimal(id as nat)),
            },
            CaptureTarget::Region { x, y, width, height } => (r matches Ok(t) && t.1 == x && t.2 == y
                && t.3 == width && t.4 == height && t.0 as int == monitor_for(
                list_monitor_rects_spec(),
                x as int,
                y as int,
                width as int,
                height as int,
            )),
            CaptureTarget::Window { id } => (r matches Err(CaptureError::WindowNotFound(s)) && s@
                == crate::text::decimal(id as nat)),
        },
{
    let rects = list_monitor_rects();
    let window = match target {
        CaptureTarget::Window { id } => match window_by_id(*id) {
            Ok(w) => w,
            Err(_) => None,
        },
        _ => None,
    };
    proof {
        assert(rects_fit(rects@));
    }
    match &window {
        Some(w) => resolve_target_among(target, rects.as_slice(), Some(w)),
        None => resolve_target_among(target, rects.as_slice(), None),
    }
}

} // verus!
