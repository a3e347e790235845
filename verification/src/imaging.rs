//! Still images of a frame, encoded by the `image` crate: a downscaled JPEG
//! for UI previews and a PNG of the whole frame for screenshots.

use vstd::prelude::*;
use crate::capture::{CaptureError, Frame};
use crate::text::{decimal, owned};

verus! {

/// What `image::imageops::resize` with `FilterType::Triangle` makes of a
/// `width x height` RGBA image at `nwidth x nheight`.
pub uninterp spec fn triangle_resized(width: u32, height: u32, rgba: Seq<u8>, nwidth: u32, nheight: u32) -> Seq<u8>;

/// What `DynamicImage::to_rgb8` makes of a `width x height` RGBA image.
pub uninterp spec fn rgb_converted(width: u32, height: u32, rgba: Seq<u8>) -> Seq<u8>;

/// The bytes `JpegEncoder::new_with_quality(.., quality).encode` writes for
/// a `width x height` RGB image.
pub uninterp spec fn jpeg_encoded(width: u32, height: u32, rgb: Seq<u8>, quality: u8) -> Seq<u8>;

/// What `PngEncoder::new(..).write_image` gives for a `width x height` RGBA
/// image: the bytes written, or the message of its error.
pub uninterp spec fn png_encoded(width: u32, height: u32, rgba: Seq<u8>) -> Result<Seq<u8>, Seq<char>>;

/// JPEG frames are between 1 and 65535 pixels on each side.
pub open spec fn jpeg_size_ok(width: u32, height: u32) -> bool {
    1 <= width <= 65535 && 1 <= height <= 65535
}

/// The message of the JPEG encoder's size error.
pub open spec fn jpeg_size_message(width: u32, height: u32) -> Seq<char> {
    "Format error encoding Jpeg:\nInvalid image size ("@ + decimal(width as nat) + " x "@ + decimal(
        height as nat,
    ) + ") to encode as JPEG: width and height must be >= 1 and <= 65535"@
}

/// `image::imageops::resize(.., FilterType::Triangle)` of an RGBA buffer.
/// Claimed: the result is the named resampling of the arguments, and it
/// holds `nwidth * nheight` pixels (the source allocates the output image
/// with those sides, also when the input is empty).
#[verifier::external_body]
fn resize_triangle(width: u32, height: u32, rgba: Vec<u8>, nwidth: u32, nheight: u32) -> (r: Vec<u8>)
    requires
        rgba@.len() == width * height * 4,
        width * nheight * 4 <= usize::MAX,
        nwidth * nheight * 4 <= usize::MAX,
    ensures
        r@ == triangle_resized(width, height, rgba@, nwidth, nheight),
        r@.len() == nwidth * nheight * 4,
{
    match image::RgbaImage::from_raw(width, height, rgba) {
        Some(img) => image::imageops::resize(&img, nwidth, nheight, image::imageops::FilterType::Triangle).into_raw(),
        None => Vec::new(),
    }
}

/// `DynamicImage::ImageRgba8(..).to_rgb8()` of an RGBA buffer. Claimed: the
/// result is the named conversion, three bytes for each pixel.
#[verifier::external_body]
fn rgba_to_rgb(width: u32, height: u32, rgba: Vec<u8>) -> (r: Vec<u8>)
    requires
        rgba@.len() == width * height * 4,
    ensures
        r@ == rgb_converted(width, height, rgba@),
        r@.len() == width * height * 3,
{
    match image::RgbaImage::from_raw(width, height, rgba) {
        Some(img) => image::DynamicImage::ImageRgba8(img).to_rgb8().into_raw(),
        None => Vec::new(),
    }
}

/// `JpegEncoder::new_with_quality(&mut bytes, quality).encode(rgb, .., Rgb8)`.
/// Claimed, from the encoder's source: it fails exactly when a side is 0 or
/// above 65535, with the size message; else the bytes written are the named
/// encoding and begin with the start-of-image marker `FF D8`.
#[verifier::external_body]
fn encode_jpeg(width: u32, height: u32, rgb: &[u8], quality: u8) -> (r: Result<Vec<u8>, String>)
    requires
        rgb@.len() == width * height * 3,
    ensures
        r is Ok <==> jpeg_size_ok(width, height),
        r matches Ok(b) ==> b@ == jpeg_encoded(width, height, rgb@, quality) && b@.len() >= 2 && b@[0]
            == 0xFFu8 && b@[1] == 0xD8u8,
        r matches Err(m) ==> m@ == jpeg_size_message(width, height),
{
    let mut bytes: Vec<u8> = Vec::new();
    let outcome = image::codecs::jpeg::JpegEncoder::new_with_quality(&mut bytes, quality).encode(
        rgb,
        width,
        height,
        image::ExtendedColorType::Rgb8,
    );
    match outcome {
        Ok(()) => Ok(bytes),
        Err(e) => Err(e.to_string()),
    }
}

/// `PngEncoder::new(&mut bytes).write_image(rgba, .., Rgba8)`, the encoder
/// `image` uses when it saves a `.png`. Claimed: the outcome is the named
/// one; the encoder's source is not restated.
#[verifier::external_body]
fn encode_png(width: u32, height: u32, rgba: &[u8]) -> (r: Result<Vec<u8>, String>)
    requires
        rgba@.len() == width * height * 4,
    ensures
        match r {
            Ok(b) => png_encoded(width, height, rgba@) == Ok::<Seq<u8>, Seq<char>>(b@),
            Err(m) => png_encoded(width, height, rgba@) == Err::<Seq<u8>, Seq<char>>(m@),
        },
{
    let mut bytes: Vec<u8> = Vec::new();
    let outcome = image::ImageEncoder::write_image(
        image::codecs::png::PngEncoder::new(&mut bytes),
        rgba,
        width,
        height,
        image::ExtendedColorType::Rgba8,
    );
    match outcome {
        Ok(()) => Ok(bytes),
        Err(e) => Err(e.to_string()),
    }
}

/// The first `n` bytes of `v`.
fn leading(v: &Vec<u8>, n: usize) -> (r: Vec<u8>)
    requires
        n <= v@.len(),
    ensures
        r@ == v@.take(n as int),
{
    let mut out: Vec<u8> = Vec::new();
    let mut i: usize = 0;
    while i < n
        invariant
            i <= n <= v@.len(),
            out@ == v@.take(i as int),
        decreases n - i,
    {
        proof {
            assert(v@.take(i as int).push(v@[i as int]) == v@.take(i + 1));
        }
        out.push(v[i]);
        i = i + 1;
    }
    out
}

/// `width * height * 4`, the bytes of an RGBA image.
fn rgba_len(width: u32, height: u32) -> (r: u128)
    ensures
        r == width * height * 4,
{
    proof {
        assert(width as int * height as int <= 0xffff_ffff * 0xffff_ffff) by (nonlinear_arith)
            requires
                width <= 0xffff_ffff,
                height <= 0xffff_ffff,
        ;
    }
    width as u128 * height as u128 * 4
}

/// `a * b / c` for `c > 0`.
fn scaled(a: u32, b: u32, c: u32) -> (r: u64)
    requires
        c > 0,
    ensures
        r as int == (a as int * b as int) / (c as int),
{
    proof {
        assert(a as int * b as int <= 0xffff_ffff * 0xffff_ffff) by (nonlinear_arith)
            requires
                a <= 0xffff_ffff,
                b <= 0xffff_ffff,
        ;
    }
    a as u64 * b as u64 / c as u64
}

/// The bytes of an image's pixels in `rgba`: the first `width * height * 4`.
pub open spec fn rgba_pixels(width: u32, height: u32, rgba: Seq<u8>) -> Seq<u8> {
    rgba.take(width * height * 4)
}

/// `rgba` holds all the pixels of a `width x height` image.
pub open spec fn rgba_fits(width: u32, height: u32, rgba: Seq<u8>) -> bool {
    rgba.len() >= width * height * 4
}

/// The bytes of a frame's pixels.
pub open spec fn frame_pixels(f: Frame) -> Seq<u8> {
    rgba_pixels(f.width, f.height, f.rgba@)
}

/// A frame's buffer holds all its pixels.
pub open spec fn frame_fits(f: Frame) -> bool {
    rgba_fits(f.width, f.height, f.rgba@)
}

/// The sides of a preview at most `max_width` (at least 2) wide: a wider
/// frame is scaled to that width, its height in proportion but at least 2.
pub open spec fn preview_dims(width: u32, height: u32, max_width: u32) -> (u32, u32) {
    let mw: u32 = if max_width < 2 { 2 } else { max_width };
    if width > mw {
        let h: int = (height as int * mw as int) / (width as int);
        (mw, if h < 2 { 2 } else { h as u32 })
    } else {
        (width, height)
    }
}

/// A preview is never wider than the frame nor than `max_width` (taken as
/// at least 2); a frame that fits is kept at its size, and a scaled one is
/// at least 2 and at most its own height (or 2) high.
pub proof fn lemma_preview_dims_bounded(width: u32, height: u32, max_width: u32)
    ensures
        ({
            let mw: u32 = if max_width < 2 { 2 } else { max_width };
            let (pw, ph) = preview_dims(width, height, max_width);
            &&& pw <= width
            &&& pw <= mw
            &&& width <= mw ==> pw == width && ph == height
            &&& width > mw ==> 2 <= ph && ph <= (if height < 2 { 2 } else { height })
        }),
{
    let mw: u32 = if max_width < 2 { 2 } else { max_width };
    if width > mw {
        let h: int = (height as int * mw as int) / (width as int);
        assert(h <= height) by (nonlinear_arith)
            requires
                h == (height as int * mw as int) / (width as int),
                mw < width,
                0 <= height,
        ;
    }
}

/// The RGBA pixels a preview of a `width x height` image is encoded from.
pub open spec fn preview_source(width: u32, height: u32, rgba: Seq<u8>, max_width: u32) -> Seq<u8> {
    let (pw, ph) = preview_dims(width, height, max_width);
    if width > pw {
        triangle_resized(width, height, rgba_pixels(width, height, rgba), pw, ph)
    } else {
        rgba_pixels(width, height, rgba)
    }
}

/// The quality handed to the JPEG encoder: clamped to `1..=100`.
pub open spec fn jpeg_quality(quality: u8) -> u8 {
    if quality < 1 {
        1
    } else if quality > 100 {
        100
    } else {
        quality
    }
}

/// The message of a frame whose buffer is shorter than its pixels.
pub open spec fn invalid_buffer_message() -> Seq<char> {
    "invalid RGBA buffer"@
}

/// What a preview of a `width x height` image held in `rgba` comes to: an
/// error when the buffer is short; else the JPEG of the scaled pixels with
/// its sides, or the encoder's size error.
pub open spec fn preview_outcome(
    r: Result<(u32, u32, Vec<u8>), CaptureError>,
    width: u32,
    height: u32,
    rgba: Seq<u8>,
    max_width: u32,
    quality: u8,
) -> bool {
    &&& !rgba_fits(width, height, rgba) ==> (r matches Err(CaptureError::Failed(m)) && m@
        == invalid_buffer_message())
    &&& rgba_fits(width, height, rgba) ==> ({
        let (pw, ph) = preview_dims(width, height, max_width);
        if jpeg_size_ok(pw, ph) {
            r matches Ok((w, h, b)) && w == pw && h == ph && b@ == jpeg_encoded(
                pw,
                ph,
                rgb_converted(pw, ph, preview_source(width, height, rgba, max_width)),
                jpeg_quality(quality),
            ) && b@.len() >= 2 && b@[0] == 0xFFu8 && b@[1] == 0xD8u8
        } else {
            r matches Err(CaptureError::Failed(m)) && m@ == jpeg_size_message(pw, ph)
        }
    })
}

impl Frame {
    /// Downscale and encode a lightweight JPEG suitable for UI preview:
    /// `(width, height, bytes)` of the encoded image.
    pub fn preview_jpeg(&self, max_width: u32, quality: u8) -> (r: Result<(u32, u32, Vec<u8>), CaptureError>)
        requires
            self.width * 8 <= usize::MAX,
        ensures
            preview_outcome(r, self.width, self.height, self.rgba@, max_width, quality),
    {
        let w = self.width;
        let h = self.height;
        let need = rgba_len(w, h);
        if need > self.rgba.len() as u128 {
            return Err(CaptureError::Failed(owned("invalid RGBA buffer")));
        }
        let pixels = leading(&self.rgba, need as usize);
        let mw: u32 = if max_width < 2 { 2 } else { max_width };
        let (pw, ph, scaled) = if w > mw {
            let q = scaled(h, mw, w);
            proof {
                assert(q <= h) by (nonlinear_arith)
                    requires
                        q as int == (h as int * mw as int) / (w as int),
                        mw < w,
                ;
                assert(w as int * 2 * 4 <= usize::MAX);
                if h >= 2 {
                    assert(w as int * q * 4 <= w as int * h * 4) by (nonlinear_arith)
                        requires
                            q <= h,
                    ;
                }
                assert(mw as int * 2 * 4 <= w as int * 2 * 4);
                if q >= 2 {
                    assert(mw as int * q * 4 <= w as int * q * 4) by (nonlinear_arith)
                        requires
                            mw < w,
                    ;
                }
            }
            let nh: u32 = if q < 2 { 2 } else { q as u32 };
            let resized = resize_triangle(w, h, pixels, mw, nh);
            (mw, nh, resized)
        } else {
            (w, h, pixels)
        };
        let rgb = rgba_to_rgb(pw, ph, scaled);
        let q: u8 = if quality < 1 { 1 } else if quality > 100 { 100 } else { quality };
        match encode_jpeg(pw, ph, &rgb, q) {
            Ok(bytes) => Ok((pw, ph, bytes)),
            Err(m) => Err(CaptureError::Failed(m)),
        }
    }

    /// The frame encoded as a PNG, the bytes a screenshot file holds.
    pub fn png_bytes(&self) -> (r: Result<Vec<u8>, CaptureError>)
        ensures
            !frame_fits(*self) ==> (r matches Err(CaptureError::Failed(m)) && m@ == invalid_buffer_message()),
            frame_fits(*self) ==> match png_encoded(self.width, self.height, frame_pixels(*self)) {
                Ok(b) => r matches Ok(v) && v@ == b,
                Err(m) => r matches Err(CaptureError::Failed(e)) && e@ == m,
            },
    {
        let need = rgba_len(self.width, self.height);
        if need > self.rgba.len() as u128 {
            return Err(CaptureError::Failed(owned("invalid RGBA buffer")));
        }
        let pixels = leading(&self.rgba, need as usize);
        match encode_png(self.width, self.height, &pixels) {
            Ok(bytes) => Ok(bytes),
            Err(m) => Err(CaptureError::Failed(m)),
        }
    }
}

} // verus!
