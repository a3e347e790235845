use capto::capture::{CaptureError, Frame};

#[test]
fn blackout_clips_to_frame_and_jpeg_encodes() {
    let mut frame = Frame {
        width: 4,
        height: 4,
        rgba: vec![255; 4 * 4 * 4],
        timestamp_ms: 0,
    };

    let painted = frame.blackout_rect(-1, -1, 3, 3).expect("clipped rect");
    assert_eq!(
        (painted.x, painted.y, painted.width, painted.height),
        (0, 0, 2, 2)
    );
    assert_eq!(&frame.rgba[0..4], &[0, 0, 0, 255]);
    assert!(frame.blackout_rect(10, 10, 2, 2).is_none());

    let (width, height, jpeg) = frame.preview_jpeg(2, 65).expect("preview JPEG");
    assert_eq!((width, height), (2, 2));
    assert!(jpeg.starts_with(&[0xff, 0xd8]));
}

#[test]
fn preview_keeps_narrow_frames_and_floors_height_at_two() {
    let narrow = Frame { width: 3, height: 2, rgba: vec![10; 3 * 2 * 4], timestamp_ms: 1 };
    let (w, h, jpeg) = narrow.preview_jpeg(640, 80).unwrap();
    assert_eq!((w, h), (3, 2));
    assert!(jpeg.starts_with(&[0xff, 0xd8]));

    let flat = Frame { width: 100, height: 1, rgba: vec![0; 100 * 4], timestamp_ms: 1 };
    let (w, h, _) = flat.preview_jpeg(0, 0).unwrap();
    assert_eq!((w, h), (2, 2));

    let wide = Frame { width: 400, height: 300, rgba: vec![7; 400 * 300 * 4], timestamp_ms: 1 };
    let (w, h, _) = wide.preview_jpeg(100, 200).unwrap();
    assert_eq!((w, h), (100, 75));
}

#[test]
fn preview_rejects_short_buffers_and_empty_frames() {
    let short = Frame { width: 2, height: 2, rgba: vec![0; 15], timestamp_ms: 0 };
    match short.preview_jpeg(10, 50) {
        Err(CaptureError::Failed(m)) => assert_eq!(m, "invalid RGBA buffer"),
        other => panic!("unexpected {:?}", other.map(|(w, h, _)| (w, h))),
    }
    let empty = Frame { width: 0, height: 5, rgba: Vec::new(), timestamp_ms: 0 };
    match empty.preview_jpeg(10, 50) {
        Err(CaptureError::Failed(m)) => assert_eq!(
            m,
            "Format error encoding Jpeg:\nInvalid image size (0 x 5) to encode as JPEG: width and height must be >= 1 and <= 65535"
        ),
        other => panic!("unexpected {:?}", other.map(|(w, h, _)| (w, h))),
    }
}

#[test]
fn png_bytes_encode_the_whole_frame() {
    let frame = Frame { width: 2, height: 1, rgba: vec![1, 2, 3, 255, 4, 5, 6, 255, 99], timestamp_ms: 0 };
    let png = frame.png_bytes().unwrap();
    assert!(png.starts_with(&[0x89, b'P', b'N', b'G']));
    let short = Frame { width: 2, height: 2, rgba: vec![0; 4], timestamp_ms: 0 };
    assert!(matches!(short.png_bytes(), Err(CaptureError::Failed(m)) if m == "invalid RGBA buffer"));
}
