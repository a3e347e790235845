use capto::capture::{CaptureError, Frame};
use capto::webcam::{
    ensure_preview_webcam, ideal_capture_size, list_webcams, pick_media_type, CamFormat, nv12_to_bgra, preview_webcam_slot, release_preview_webcam,
    reuses_preview_camera, unpack_frame_rate, unpack_frame_size, yuv_to_bgr, yuy2_to_bgra,
    WebcamFrameSlot,
};

#[test]
fn yuv_converts_with_clamping() {
    assert_eq!(yuv_to_bgr(128, 0, 0), (128, 128, 128));
    assert_eq!(yuv_to_bgr(255, 127, 127), (255, 121, 255));
    assert_eq!(yuv_to_bgr(0, -128, -128), (0, 136, 0));
    assert_eq!(yuv_to_bgr(100, -1, 0), (98, 101, 100));
}

#[test]
fn yuy2_pairs_share_chroma() {
    let src = [16u8, 128, 235, 128];
    let out = yuy2_to_bgra(&src, 2, 1).unwrap();
    assert_eq!(out, vec![16, 16, 16, 255, 235, 235, 235, 255]);
    assert_eq!(yuy2_to_bgra(&src, 4, 1), None);
    assert_eq!(yuy2_to_bgra(&[1, 2], 1, 1), None);
    let odd = yuy2_to_bgra(&[10, 128, 20, 128, 0, 0], 3, 1).unwrap();
    assert_eq!(&odd[8..], &[0, 0, 0, 0]);
}

#[test]
fn packed_sizes_and_rates() {
    assert_eq!(unpack_frame_size((1280u64 << 32) | 720), Some((1280, 720)));
    assert_eq!(unpack_frame_size((1u64 << 32) | 720), None);
    assert_eq!(unpack_frame_rate(Some((30000u64 << 32) | 1001)), (30000, 1001));
    assert_eq!(unpack_frame_rate(Some(60u64 << 32)), (30, 1));
    assert_eq!(unpack_frame_rate(None), (30, 1));
}

#[test]
fn nv12_blocks_share_chroma() {
    let mut src = vec![100u8; 8];
    src.extend_from_slice(&[128, 128, 200, 128]);
    let out = nv12_to_bgra(&src, 4, 2).unwrap();
    assert_eq!(out.len(), 32);
    for row in 0..2 {
        for col in 0..4 {
            let o = (row * 4 + col) * 4;
            let expected = if col < 2 { [100, 100, 100, 255] } else { [227, 76, 100, 255] };
            assert_eq!(&out[o..o + 4], &expected);
        }
    }
}

#[test]
fn nv12_rejects_short_or_tiny_frames() {
    assert_eq!(nv12_to_bgra(&[0u8; 11], 4, 2), None);
    assert_eq!(nv12_to_bgra(&[0u8; 12], 1, 2), None);
    assert_eq!(nv12_to_bgra(&[0u8; 12], 4, 1), None);
    let gray = nv12_to_bgra(&[16, 50, 100, 235, 128, 128], 2, 2).unwrap();
    assert_eq!(gray, vec![16, 16, 16, 255, 50, 50, 50, 255, 100, 100, 100, 255, 235, 235, 235, 255]);
}

#[test]
fn frame_slot_gives_back_the_latest_store() {
    let mut slot = WebcamFrameSlot::new();
    assert!(slot.latest().is_none());
    slot.store(Frame { width: 1, height: 1, rgba: vec![1, 2, 3, 4], timestamp_ms: 10 });
    slot.store(Frame { width: 2, height: 1, rgba: vec![0; 8], timestamp_ms: 20 });
    let f = slot.latest().unwrap();
    assert_eq!((f.width, f.timestamp_ms), (2, 20));
    slot.clear();
    assert!(slot.latest().is_none());
    assert!(WebcamFrameSlot::default().latest().is_none());
}

#[test]
fn preview_camera_reuse_rules() {
    assert!(!reuses_preview_camera(None, None));
    assert!(reuses_preview_camera(Some("cam-1"), None));
    assert!(reuses_preview_camera(Some("cam-1"), Some("")));
    assert!(!reuses_preview_camera(Some(""), None));
    assert!(reuses_preview_camera(Some("cam-1"), Some("cam-1")));
    assert!(!reuses_preview_camera(Some("cam-1"), Some("cam-2")));
    assert!(list_webcams().unwrap().is_empty());
}

#[test]
fn preview_camera_is_unavailable_here() {
    assert!(matches!(
        ensure_preview_webcam(Some("cam"), 320, 240),
        Err(CaptureError::Unsupported("webcam capture is Windows-only"))
    ));
    assert!(preview_webcam_slot().is_none());
    release_preview_webcam();
}

#[test]
fn ideal_size_is_twice_the_target_within_bounds() {
    assert_eq!(ideal_capture_size(320, 240), (640, 480));
    assert_eq!(ideal_capture_size(500, 300), (1000, 600));
    assert_eq!(ideal_capture_size(4000, 4000), (1280, 720));
    assert_eq!(ideal_capture_size(u32::MAX, 0), (1280, 480));
}

#[test]
fn media_type_prefers_format_rate_and_size() {
    let cands = [
        (CamFormat::Rgb32, 640, 480, 30, 1),
        (CamFormat::Nv12, 640, 480, 30, 1),
        (CamFormat::Yuy2, 640, 480, 30, 1),
        (CamFormat::Yuy2, 100, 100, 30, 1),
        (CamFormat::Yuy2, 1920, 1080, 5, 1),
    ];
    assert_eq!(pick_media_type(&cands, 320, 240), Some(2));
    let tie = [(CamFormat::Nv12, 640, 480, 30, 1), (CamFormat::Nv12, 640, 480, 30, 1)];
    assert_eq!(pick_media_type(&tie, 320, 240), Some(0));
    assert_eq!(pick_media_type(&[(CamFormat::Yuy2, 100, 100, 30, 1)], 320, 240), None);
    let rates = [(CamFormat::Yuy2, 640, 480, 15, 1), (CamFormat::Yuy2, 1280, 720, 30, 0), (CamFormat::Yuy2, 800, 600, 60, 2)];
    assert_eq!(pick_media_type(&rates, 320, 240), Some(2));
}
