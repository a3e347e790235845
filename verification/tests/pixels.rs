use capto::capture::{Frame, PixelRect};
use capto::pixels::{
    blit_cursor_glyph, composite_webcam_pip, crop_bgra, crop_region, in_channel_order, inside_rounded, mirror_rgba_inplace,
    pip_box_size, scale_bgra, scale_to_exact, swap_rb_inplace, PipLayout,
};

fn frame(w: u32, h: u32, f: impl Fn(u32, u32, u32) -> u8) -> Frame {
    let mut rgba = Vec::new();
    for y in 0..h {
        for x in 0..w {
            for c in 0..4 {
                rgba.push(f(x, y, c));
            }
        }
    }
    Frame { width: w, height: h, rgba, timestamp_ms: 5 }
}

fn px(f: &Frame, x: u32, y: u32) -> [u8; 4] {
    let i = ((y * f.width + x) * 4) as usize;
    [f.rgba[i], f.rgba[i + 1], f.rgba[i + 2], f.rgba[i + 3]]
}

#[test]
fn blackout_clips_to_frame() {
    let mut f = frame(4, 3, |_, _, _| 9);
    let painted = f.blackout_rect(-1, 1, 3, 10);
    assert_eq!(painted, Some(PixelRect { x: 0, y: 1, width: 2, height: 2 }));
    assert_eq!(px(&f, 0, 1), [0, 0, 0, 255]);
    assert_eq!(px(&f, 1, 2), [0, 0, 0, 255]);
    assert_eq!(px(&f, 2, 1), [9, 9, 9, 9]);
    assert_eq!(px(&f, 0, 0), [9, 9, 9, 9]);
    assert_eq!(f.blackout_rect(10, 10, 5, 5), None);
    assert_eq!(f.blackout_rect(0, 0, u32::MAX, 1), None);
}

#[test]
fn swapping_channels_twice_restores() {
    let mut f = frame(2, 1, |x, _, c| (x * 10 + c) as u8);
    f.rgba.push(77);
    swap_rb_inplace(&mut f);
    assert_eq!(&f.rgba[..4], &[2, 1, 0, 3]);
    assert_eq!(f.rgba[8], 77);
    swap_rb_inplace(&mut f);
    assert_eq!(&f.rgba[..4], &[0, 1, 2, 3]);
}

#[test]
fn mirroring_reverses_each_row() {
    let mut f = frame(3, 2, |x, y, c| (y * 100 + x * 10 + c) as u8);
    mirror_rgba_inplace(&mut f);
    assert_eq!(px(&f, 0, 0), [20, 21, 22, 23]);
    assert_eq!(px(&f, 2, 1), [100, 101, 102, 103]);
    assert_eq!(px(&f, 1, 1), [110, 111, 112, 113]);
    let mut narrow = frame(1, 2, |_, y, _| y as u8);
    mirror_rgba_inplace(&mut narrow);
    assert_eq!(narrow.rgba, vec![0, 0, 0, 0, 1, 1, 1, 1]);
}

#[test]
fn rounded_corners() {
    assert!(inside_rounded(5, 0, 10, 10, 3, 9));
    assert!(!inside_rounded(0, 0, 10, 10, 3, 9));
    assert!(inside_rounded(1, 1, 10, 10, 3, 9));
    assert!(inside_rounded(0, 0, 10, 10, 0, 0));
}

#[test]
fn pip_is_drawn_inside_its_box() {
    let mut base = frame(8, 6, |_, _, _| 1);
    let cam = frame(2, 2, |x, y, _| (50 + y * 2 + x) as u8);
    let pip = PipLayout { enabled: true, width: 4, height: 4, mirrored: false, corner_radius: 0 };
    assert_eq!(pip_box_size(&pip, 8, 6), (4, 4));
    composite_webcam_pip(&mut base, &cam, &pip, 2, 1);
    assert_eq!(px(&base, 1, 1), [1, 1, 1, 1]);
    assert_eq!(px(&base, 2, 1), [50, 50, 50, 50]);
    assert_eq!(px(&base, 5, 4), [53, 53, 53, 53]);
    assert_eq!(px(&base, 6, 4), [1, 1, 1, 1]);
    let mut mirrored_base = frame(8, 6, |_, _, _| 1);
    let mirrored = PipLayout { mirrored: true, ..pip };
    composite_webcam_pip(&mut mirrored_base, &cam, &mirrored, 2, 1);
    assert_eq!(px(&mirrored_base, 2, 1), [51, 51, 51, 51]);
    let mut off = frame(8, 6, |_, _, _| 1);
    let disabled = PipLayout { enabled: false, ..pip };
    composite_webcam_pip(&mut off, &cam, &disabled, 2, 1);
    assert!(off.rgba.iter().all(|b| *b == 1));
}

#[test]
fn cursor_glyph_skips_blank_pixels() {
    let mut f = frame(4, 4, |_, _, _| 3);
    let mut glyph = vec![0u8; 64 * 64 * 4];
    glyph[..4].copy_from_slice(&[10, 20, 30, 255]);
    let i = (1 * 64 + 1) * 4;
    glyph[i..i + 4].copy_from_slice(&[40, 50, 60, 0]);
    blit_cursor_glyph(&mut f, &glyph, 2, 2);
    assert_eq!(px(&f, 2, 2), [10, 20, 30, 255]);
    assert_eq!(px(&f, 3, 3), [40, 50, 60, 0]);
    assert_eq!(px(&f, 3, 2), [3, 3, 3, 3]);
    assert_eq!(px(&f, 0, 0), [3, 3, 3, 3]);
}

#[test]
fn scaling_and_cropping() {
    let f = frame(4, 2, |x, y, _| (y * 4 + x) as u8);
    let half = scale_to_exact(frame(4, 2, |x, y, _| (y * 4 + x) as u8), 2, 1).unwrap();
    assert_eq!((half.width, half.height), (2, 1));
    assert_eq!(half.rgba, vec![0, 0, 0, 0, 2, 2, 2, 2]);
    let same = scale_bgra(frame(4, 2, |_, _, _| 7), 4, 2);
    assert_eq!(same.rgba.len(), 32);
    let up = scale_bgra(frame(1, 1, |_, _, c| c as u8), 0, 2);
    assert_eq!((up.width, up.height), (1, 2));
    assert_eq!(up.rgba, vec![0, 1, 2, 3, 0, 1, 2, 3]);
    let c = crop_bgra(&f, 1, 1, 10, 10).unwrap();
    assert_eq!((c.width, c.height), (3, 1));
    assert_eq!(c.rgba, vec![5, 5, 5, 5, 6, 6, 6, 6, 7, 7, 7, 7]);
    assert_eq!(c.timestamp_ms, 5);
    let whole = crop_bgra(&f, 0, 0, 4, 2).unwrap();
    assert_eq!(whole.rgba, f.rgba);
}

#[test]
fn in_channel_order_swaps_whole_pixels_only() {
    let buf = [1u8, 2, 3, 4, 5, 6, 7, 8, 9];
    assert_eq!(in_channel_order(&buf, true), vec![3, 2, 1, 4, 7, 6, 5, 8]);
    assert_eq!(in_channel_order(&buf, false), buf.to_vec());
    assert_eq!(in_channel_order(&[], true), Vec::<u8>::new());
}

#[test]
fn crop_region_clips_to_the_capture() {
    let f = frame(4, 3, |x, y, c| (y * 40 + x * 4 + c) as u8);
    let inner = crop_region(&f, 1, 1, 2, 5);
    assert_eq!((inner.width, inner.height, inner.timestamp_ms), (2, 2, 5));
    assert_eq!(px(&inner, 0, 0), px(&f, 1, 1));
    assert_eq!(px(&inner, 1, 1), px(&f, 2, 2));
    let outside = crop_region(&f, 9, 0, 3, 3);
    assert_eq!((outside.width, outside.height), (0, 3));
    assert!(outside.rgba.is_empty());
    let whole = crop_region(&f, 0, 0, 100, 100);
    assert_eq!((whole.width, whole.height), (4, 3));
    assert_eq!(whole.rgba, f.rgba);
}

#[test]
fn reordering_twice_restores_whole_pixels() {
    let buf = [9u8, 8, 7, 6, 5, 4, 3, 2, 1, 0];
    let once = in_channel_order(&buf, true);
    assert_eq!(in_channel_order(&once, true), buf[..8].to_vec());
}

#[test]
fn scaling_to_an_empty_side_gives_no_pixels() {
    let flat = scale_to_exact(frame(4, 2, |_, _, _| 9), 0, 3).unwrap();
    assert_eq!((flat.width, flat.height), (0, 3));
    assert!(flat.rgba.is_empty());
    let empty = frame(0, 0, |_, _, _| 0);
    let still_empty = scale_to_exact(empty, 5, 0).unwrap();
    assert_eq!((still_empty.width, still_empty.height), (5, 0));
    assert!(still_empty.rgba.is_empty());
    let same = scale_to_exact(frame(0, 0, |_, _, _| 0), 0, 0).unwrap();
    assert_eq!((same.width, same.height), (0, 0));
}
