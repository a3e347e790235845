use capto::capture::{
    display_for_point, display_for_point_among, monitor_index_for_rect, monitor_origin, resolve_target, monitor_origin_among, normalize_display_rect,
    normalize_display_rect_among, preview_origin, region_source, resolve_target_among, union_rects,
    virtual_screen, CaptureError, CaptureTarget, UnsupportedCaptureBackend, VirtualScreen,
    WindowInfo, XcapCaptureBackend,
};

#[test]
fn to_crop_uses_virtual_origin() {
    let screen = VirtualScreen { x: -2560, y: 0, width: 5120, height: 1600 };
    assert_eq!(screen.to_crop(0, 0, 2560, 1600), Some((2560, 1600, 2560, 0)));
    assert_eq!(screen.to_crop(-2000, 200, 800, 600), Some((800, 600, 560, 200)));
}

#[test]
fn to_crop_outside_screen_is_none() {
    let screen = VirtualScreen { x: 0, y: 0, width: 1920, height: 1080 };
    assert_eq!(screen.to_crop(5000, 5000, 100, 100), None);
}

#[test]
fn clamp_rect_clips_to_screen() {
    let screen = VirtualScreen { x: 0, y: 0, width: 1920, height: 1080 };
    assert_eq!(screen.clamp_rect(-100, -50, 400, 300), Some((0, 0, 300, 250)));
}

#[test]
fn contains_point_is_half_open() {
    let screen = VirtualScreen { x: 0, y: 0, width: 1920, height: 1080 };
    assert!(screen.contains_point(0, 0));
    assert!(screen.contains_point(1919, 1079));
    assert!(!screen.contains_point(1920, 0));
}

#[test]
fn virtual_screen_is_full_hd_without_monitor_api() {
    let s = virtual_screen();
    assert_eq!((s.x, s.y, s.width, s.height), (0, 0, 1920, 1080));
    assert_eq!(monitor_index_for_rect(10, 10, 100, 100), 0);
}

#[test]
fn capture_error_messages() {
    assert_eq!(
        CaptureError::WindowNotFound("42".into()).message(),
        "window not found: 42"
    );
    assert_eq!(
        CaptureError::Unsupported("window HWND capture is Windows-only").message(),
        "capture backend unavailable on this platform: window HWND capture is Windows-only"
    );
    let t = CaptureTarget::Display { id: 1 };
    assert_eq!(t, CaptureTarget::Display { id: 1 });
}

#[test]
fn union_and_normalize_geometry() {
    let a = VirtualScreen { x: -1920, y: 0, width: 1920, height: 1080 };
    let b = VirtualScreen { x: 0, y: -200, width: 2560, height: 1440 };
    let u = union_rects(&[a, b]).unwrap();
    assert_eq!((u.x, u.y, u.width, u.height), (-1920, -200, 4480, 1440));
    assert!(union_rects(&[]).is_none());
    let screen = VirtualScreen { x: -1920, y: -200, width: 4480, height: 1440 };
    assert_eq!(normalize_display_rect_among(&[a, b], &screen, -1000, 100, 100, 100), (-1920, 0, 1920, 1080));
    assert_eq!(normalize_display_rect_among(&[a, b], &screen, 5000, 0, 10, 10), (0, -200, 2560, 1440));
    assert_eq!(normalize_display_rect_among(&[], &screen, -3000, 0, 2000, 500), (-1920, 0, 920, 500));
    assert_eq!(normalize_display_rect(10, 10, 100, 100, &screen), (0, 0, 1920, 1080));
}

fn two_monitors() -> Vec<VirtualScreen> {
    vec![
        VirtualScreen { x: 0, y: 0, width: 1920, height: 1080 },
        VirtualScreen { x: 1920, y: 0, width: 2560, height: 1440 },
    ]
}

#[test]
fn monitor_origin_among_reports_origin_or_missing_display() {
    let ms = two_monitors();
    let (x, y, m) = monitor_origin_among(&ms, 1).unwrap();
    assert_eq!((x, y), (1920, 0));
    assert_eq!(m, ms[1]);
    match monitor_origin_among(&ms, 7) {
        Err(CaptureError::DisplayNotFound(d)) => assert_eq!(d, "7"),
        other => panic!("unexpected {:?}", other),
    }
}

#[test]
fn display_for_point_among_picks_first_holder_else_zero() {
    let ms = two_monitors();
    assert_eq!(display_for_point_among(&ms, 100, 100), 0);
    assert_eq!(display_for_point_among(&ms, 2000, 1200), 1);
    assert_eq!(display_for_point_among(&ms, -50, -50), 0);
    assert_eq!(display_for_point_among(&ms, 1920, 0), 1);
}

#[test]
fn resolve_target_among_covers_each_target_kind() {
    let ms = two_monitors();
    let display = resolve_target_among(&CaptureTarget::Display { id: 1 }, &ms, None).unwrap();
    assert_eq!(display, (1, 1920, 0, 2560, 1440));
    assert!(matches!(
        resolve_target_among(&CaptureTarget::Display { id: 3 }, &ms, None),
        Err(CaptureError::DisplayNotFound(_))
    ));
    let region = CaptureTarget::Region { x: 1800, y: 10, width: 400, height: 300 };
    assert_eq!(resolve_target_among(&region, &ms, None).unwrap(), (1, 1800, 10, 400, 300));
    let win = WindowInfo {
        id: 42,
        title: "Editor".to_string(),
        app_name: "edit".to_string(),
        width: 800,
        height: 600,
        x: 100,
        y: 50,
    };
    assert_eq!(
        resolve_target_among(&CaptureTarget::Window { id: 42 }, &ms, Some(&win)).unwrap(),
        (0, 100, 50, 800, 600)
    );
    match resolve_target_among(&CaptureTarget::Window { id: 42 }, &ms, None) {
        Err(CaptureError::WindowNotFound(s)) => assert_eq!(s, "42"),
        other => panic!("unexpected {:?}", other),
    }
}

#[test]
fn region_source_picks_holder_else_first_monitor() {
    let ms = two_monitors();
    assert_eq!(region_source(&ms, 2000, 100).unwrap(), (1, 80, 100));
    assert_eq!(region_source(&ms, 10, 20).unwrap(), (0, 10, 20));
    assert_eq!(region_source(&ms, -300, -40).unwrap(), (0, 0, 0));
    match region_source(&[], 5, 5) {
        Err(CaptureError::Failed(m)) => assert_eq!(m, "no monitor for region"),
        other => panic!("unexpected {:?}", other),
    }
}

#[test]
fn preview_origin_follows_the_target() {
    let ms = two_monitors();
    assert_eq!(preview_origin(&CaptureTarget::Display { id: 1 }, &ms, None), Some((1920, 0)));
    assert_eq!(preview_origin(&CaptureTarget::Display { id: 2 }, &ms, None), None);
    let region = CaptureTarget::Region { x: -5, y: 7, width: 10, height: 10 };
    assert_eq!(preview_origin(&region, &ms, None), Some((-5, 7)));
    let win = WindowInfo {
        id: 3,
        title: "T".to_string(),
        app_name: "a".to_string(),
        width: 10,
        height: 10,
        x: 30,
        y: 40,
    };
    assert_eq!(preview_origin(&CaptureTarget::Window { id: 3 }, &ms, Some(&win)), Some((30, 40)));
    assert_eq!(preview_origin(&CaptureTarget::Window { id: 3 }, &ms, None), None);
}

#[test]
fn backends_report_their_capabilities() {
    let xcap = XcapCaptureBackend::new();
    assert_eq!(xcap.platform_name(), "linux-xcap");
    assert!(xcap.supports_streaming());
    let none = UnsupportedCaptureBackend { platform: "plan9", hint: "no capture here" };
    assert_eq!(none.platform_name(), "plan9");
    assert!(!none.supports_streaming());
    assert!(matches!(none.list_windows(), Err(CaptureError::Unsupported("no capture here"))));
    assert!(matches!(
        none.capture_frame(&CaptureTarget::Display { id: 0 }),
        Err(CaptureError::Unsupported("no capture here"))
    ));
}

#[test]
fn this_machine_has_one_full_hd_display() {
    let (x, y, m) = monitor_origin(0).unwrap();
    assert_eq!((x, y, m.width, m.height), (0, 0, 1920, 1080));
    assert!(matches!(monitor_origin(1), Err(CaptureError::DisplayNotFound(d)) if d == "1"));
    assert_eq!(display_for_point(5000, 5000).unwrap(), 0);
    assert_eq!(resolve_target(&CaptureTarget::Display { id: 0 }).unwrap(), (0, 0, 0, 1920, 1080));
    let region = CaptureTarget::Region { x: 10, y: 10, width: 100, height: 50 };
    assert_eq!(resolve_target(&region).unwrap(), (0, 10, 10, 100, 50));
    assert!(matches!(
        resolve_target(&CaptureTarget::Window { id: 8 }),
        Err(CaptureError::WindowNotFound(s)) if s == "8"
    ));
}
