use capto::desktop::{
    display_path, format_key_label, hex_key_name, hotkey_command, is_modifier_vk,
    ffmpeg_info, hotkey_shot_request, hotkeys_to_register, overlay_event, screen_preview,
    webcam_preview_jpeg, webcam_preview_plan, KeystrokeStyle, OverlayEvent, is_pickable_window, overlay_bounds, overlay_contains, parse_ffmpeg_pin,
    CaptoFfmpegMeta, FoundFfmpeg, HotkeyCommand, VersionProbe,
};
use capto::capture::{CaptureError, Frame, PixelRect};
use capto::control::RecordDefaults;
use capto::encode::VideoEncoderKind;
use capto::hotkeys::{HotkeyAction, HotkeyBinding, InputEvent, MouseButton};
use capto::overlay::MouseClickOverlay;
use capto::shortcut::HotkeyKey;
use capto::session::SessionState;
use capto::settings::{OutputFormat, Region, VideoSourceKind};

#[test]
fn hotkeys_follow_the_session_state() {
    assert_eq!(hotkey_command(HotkeyAction::StartRecording, SessionState::Idle), HotkeyCommand::Start);
    assert_eq!(hotkey_command(HotkeyAction::StartRecording, SessionState::Paused), HotkeyCommand::Resume);
    assert_eq!(hotkey_command(HotkeyAction::StartRecording, SessionState::Recording), HotkeyCommand::Nothing);
    assert_eq!(hotkey_command(HotkeyAction::PauseRecording, SessionState::Recording), HotkeyCommand::Pause);
    assert_eq!(hotkey_command(HotkeyAction::PauseRecording, SessionState::Idle), HotkeyCommand::Nothing);
    assert_eq!(hotkey_command(HotkeyAction::StopRecording, SessionState::Starting), HotkeyCommand::Stop);
    assert_eq!(hotkey_command(HotkeyAction::StopRecording, SessionState::Stopping), HotkeyCommand::Nothing);
    assert_eq!(hotkey_command(HotkeyAction::TakeScreenshot, SessionState::Paused), HotkeyCommand::Screenshot);
}

#[test]
fn overlay_covers_region_or_screen() {
    let r = Region { x: -5, y: 3, width: 100, height: 50 };
    assert_eq!(overlay_bounds(Some(r)), (-5, 3, 100, 50));
    assert_eq!(overlay_bounds(Some(Region { width: 1, ..r })), (0, 0, 1920, 1080));
    assert_eq!(overlay_bounds(None), (0, 0, 1920, 1080));
    assert!(overlay_contains((-5, 3, 100, 50), -5, 3));
    assert!(!overlay_contains((-5, 3, 100, 50), 95, 3));
}

#[test]
fn picker_skips_unusable_windows() {
    let rect = Some((0, 0, 100, 100));
    assert!(is_pickable_window(true, false, 1, Some(2), "Editor", rect, 10, 10));
    assert!(!is_pickable_window(true, false, 2, Some(2), "Editor", rect, 10, 10));
    assert!(!is_pickable_window(true, true, 1, None, "Editor", rect, 10, 10));
    assert!(!is_pickable_window(true, false, 1, None, "  ", rect, 10, 10));
    assert!(!is_pickable_window(true, false, 1, None, "Program Manager", rect, 10, 10));
    assert!(!is_pickable_window(true, false, 1, None, "Editor", Some((0, 0, 31, 100)), 10, 10));
    assert!(!is_pickable_window(true, false, 1, None, "Editor", rect, 100, 10));
    assert!(!is_pickable_window(true, false, 1, None, "Editor", None, 10, 10));
}

#[test]
fn paths_lose_extended_prefixes() {
    assert_eq!(display_path(r"\\?\C:\Capto\ffmpeg.exe"), r"C:\Capto\ffmpeg.exe");
    assert_eq!(display_path(r"\\?\UNC\server\share\f"), r"\\server\share\f");
    assert_eq!(display_path(r"\\.\COM1"), "COM1");
    assert_eq!(display_path("/usr/bin/ffmpeg"), "/usr/bin/ffmpeg");
}

#[test]
fn pin_file_is_read() {
    let text = "# pinned\nCAPTO_FFMPEG_REPO = elwina/capto-ffmpeg\n\nCAPTO_FFMPEG_TAG=v1.0.0-n9.0\nOTHER=1\nnoequals\nCAPTO_FFMPEG_TAG= v2 \n";
    let meta = parse_ffmpeg_pin(text);
    assert_eq!(meta.repository.as_deref(), Some("elwina/capto-ffmpeg"));
    assert_eq!(meta.tag.as_deref(), Some("v2"));
    let empty = parse_ffmpeg_pin("");
    assert_eq!(empty.repository, None);
    assert_eq!(empty.tag, None);
}

#[test]
fn key_labels() {
    assert_eq!(format_key_label(true, false, true, false, "A").as_deref(), Some("Ctrl+Shift+A"));
    assert_eq!(format_key_label(false, false, false, false, "Esc").as_deref(), Some("Esc"));
    assert_eq!(format_key_label(true, false, false, false, "CTRL"), None);
    assert_eq!(format_key_label(false, true, false, true, "F4").as_deref(), Some("Alt+Win+F4"));
    assert!(is_modifier_vk(0xA1));
    assert!(!is_modifier_vk(0x41));
    assert_eq!(hex_key_name(0xFF), "0xFF");
    assert_eq!(hex_key_name(0x5), "0x5");
    assert_eq!(hex_key_name(0x1A2B), "0x1A2B");
}

fn meta(repo: &str, tag: &str) -> CaptoFfmpegMeta {
    CaptoFfmpegMeta { repository: Some(repo.to_string()), tag: Some(tag.to_string()) }
}

#[test]
fn ffmpeg_info_without_binary_shows_bundle_only() {
    let info = ffmpeg_info(None, Some(meta("r/res", "v2")), meta("r/pin", "v1"));
    assert!(!info.available);
    assert_eq!(info.bundle_version.as_deref(), Some("v2"));
    assert_eq!(info.repository.as_deref(), Some("r/res"));
    assert!(info.path.is_none() && info.ffmpeg_version.is_none() && info.ffmpeg_version_line.is_none());
    let pinned = ffmpeg_info(None, None, meta("r/pin", "v1"));
    assert_eq!(pinned.bundle_version.as_deref(), Some("v1"));
}

#[test]
fn ffmpeg_info_prefers_metadata_near_the_binary() {
    let found = FoundFfmpeg {
        path: "C:/ff/ffmpeg.exe".to_string(),
        probe: VersionProbe::Line { line: "ffmpeg version n7.1 Copyright".to_string(), token: Some("n7.1".to_string()) },
        meta_near: Some(meta("r/near", "v3")),
    };
    let info = ffmpeg_info(Some(found), Some(meta("r/res", "v2")), meta("r/pin", "v1"));
    assert!(info.available);
    assert_eq!(info.bundle_version.as_deref(), Some("v3"));
    assert_eq!(info.ffmpeg_version.as_deref(), Some("n7.1"));
    assert_eq!(info.ffmpeg_version_line.as_deref(), Some("ffmpeg version n7.1 Copyright"));
    assert_eq!(info.path.as_deref(), Some("C:/ff/ffmpeg.exe"));

    let untokened = FoundFfmpeg {
        path: "ff".to_string(),
        probe: VersionProbe::Line { line: "odd banner".to_string(), token: None },
        meta_near: None,
    };
    let info = ffmpeg_info(Some(untokened), None, meta("r/pin", "v1"));
    assert_eq!(info.ffmpeg_version.as_deref(), Some("odd banner"));
    assert_eq!(info.repository.as_deref(), Some("r/pin"));

    let failed = FoundFfmpeg { path: "ff".to_string(), probe: VersionProbe::Failed("spawn failed".to_string()), meta_near: None };
    let info = ffmpeg_info(Some(failed), Some(meta("r/res", "v2")), meta("r/pin", "v1"));
    assert_eq!(info.ffmpeg_version.as_deref(), Some("spawn failed"));
    assert!(info.ffmpeg_version_line.is_none());
    assert_eq!(info.bundle_version.as_deref(), Some("v2"));
}

#[test]
fn hotkey_screenshot_uses_default_source() {
    let d = RecordDefaults {
        source: VideoSourceKind::Region,
        display_id: None,
        window_id: Some(5),
        region: Some(Region { x: 1, y: 2, width: 30, height: 40 }),
        include_cursor: false,
        mic_device: None,
        loopback_device: None,
        mic_volume: 100,
        loopback_volume: 100,
        preferred_encoder: Some(VideoEncoderKind::Libx264),
        output_format: OutputFormat::Gif,
        fps: 15,
        quality: 50,
        hide_app_while_recording: false,
    };
    let shot = hotkey_shot_request(&d);
    assert_eq!(shot.source, VideoSourceKind::Region);
    assert_eq!(shot.display_id, Some(0));
    assert_eq!(shot.window_id, None);
    assert_eq!(shot.region, Some(Region { x: 1, y: 2, width: 30, height: 40 }));
}

#[test]
fn only_enabled_parsable_hotkeys_are_registered() {
    let mut stop = HotkeyBinding::new(HotkeyAction::StopRecording, "Alt+F7");
    stop.enabled = false;
    let bindings = vec![
        HotkeyBinding::new(HotkeyAction::StartRecording, "CommandOrControl+Shift+R"),
        HotkeyBinding::new(HotkeyAction::PauseRecording, "Ctrl+Shift"),
        stop,
    ];
    let reg = hotkeys_to_register(bindings);
    let summary: Vec<(HotkeyAction, HotkeyKey, &str)> =
        reg.iter().map(|(a, p, s)| (*a, p.key, s.as_str())).collect();
    assert_eq!(
        summary,
        vec![
            (HotkeyAction::StartRecording, HotkeyKey::Function(5), "Alt+F5"),
            (HotkeyAction::TakeScreenshot, HotkeyKey::Function(8), "Alt+F8"),
        ]
    );
}

fn key_style(enabled: bool) -> KeystrokeStyle {
    KeystrokeStyle { enabled, font_size: 10, color: "#FFFFFF".into(), background: "#000000AA".into() }
}

#[test]
fn overlay_shows_presses_inside_the_recorded_area() {
    let clicks = MouseClickOverlay::default();
    let bounds = (100, 50, 800, 600);
    let press = InputEvent::MouseButton { button: MouseButton::Right, x: 150, y: 70, down: true };
    match overlay_event(press, &clicks, &key_style(true), bounds) {
        Some(OverlayEvent::Click { button, dx, dy, color, radius }) => {
            assert_eq!((button, dx, dy, color.as_str(), radius), ("right", 50, 20, "#448AFF", 18));
        }
        other => panic!("unexpected {:?}", other),
    }
    let outside = InputEvent::MouseButton { button: MouseButton::Left, x: 99, y: 70, down: true };
    assert!(overlay_event(outside, &clicks, &key_style(true), bounds).is_none());
    let release = InputEvent::MouseButton { button: MouseButton::Left, x: 150, y: 70, down: false };
    assert!(overlay_event(release, &clicks, &key_style(true), bounds).is_none());
    let mut small = MouseClickOverlay::default();
    small.radius = 3;
    let press = InputEvent::MouseButton { button: MouseButton::Middle, x: 100, y: 50, down: true };
    assert!(matches!(
        overlay_event(press, &small, &key_style(true), bounds),
        Some(OverlayEvent::Click { radius: 8, .. })
    ));

    let key = InputEvent::Key { label: "Ctrl+C".into(), down: true };
    match overlay_event(key, &clicks, &key_style(true), bounds) {
        Some(OverlayEvent::Key { label, font_size, .. }) => assert_eq!((label.as_str(), font_size), ("Ctrl+C", 12)),
        other => panic!("unexpected {:?}", other),
    }
    let key = InputEvent::Key { label: "A".into(), down: true };
    assert!(overlay_event(key, &clicks, &key_style(false), bounds).is_none());
}

#[test]
fn webcam_tab_preview_plan() {
    match webcam_preview_plan(SessionState::Recording, 320, 240, Some("cam"), None, None) {
        Err(m) => assert_eq!(m, "webcam preview paused while recording"),
        Ok(_) => panic!("preview while recording"),
    }
    let (dev, w, h) = webcam_preview_plan(SessionState::Idle, 100, 2000, Some("  USB Cam "), Some("id-1"), None).unwrap();
    assert_eq!((dev.as_deref(), w, h), (Some("USB Cam"), 160, 480));
    let (dev, w, h) = webcam_preview_plan(SessionState::Idle, 320, 240, Some("  "), None, Some(" HD Webcam ")).unwrap();
    assert_eq!((dev.as_deref(), w, h), (Some("HD Webcam"), 320, 240));
    let (dev, _, _) = webcam_preview_plan(SessionState::Idle, 320, 240, None, Some(""), Some("label")).unwrap();
    assert_eq!(dev, None);
}

#[test]
fn webcam_tab_preview_is_a_small_jpeg() {
    let frame = Frame { width: 960, height: 540, rgba: vec![30; 960 * 540 * 4], timestamp_ms: 9 };
    let (w, h, jpeg) = webcam_preview_jpeg(frame, true).unwrap();
    assert_eq!((w, h), (480, 270));
    assert!(jpeg.starts_with(&[0xff, 0xd8]));
    let short = Frame { width: 4, height: 4, rgba: vec![0; 8], timestamp_ms: 0 };
    assert!(matches!(webcam_preview_jpeg(short, false), Err(CaptureError::Failed(_))));
}

#[test]
fn screen_preview_blacks_out_the_app_window() {
    let frame = Frame { width: 100, height: 80, rgba: vec![200; 100 * 80 * 4], timestamp_ms: 4 };
    let p = screen_preview(frame, Some((1050, 1020, 30, 30)), Some((1000, 1000))).unwrap();
    assert_eq!(p.masked, Some(PixelRect { x: 50, y: 20, width: 30, height: 30 }));
    assert_eq!((p.width, p.height, p.source_width, p.source_height, p.timestamp_ms), (100, 80, 100, 80, 4));
    assert!(p.jpeg.starts_with(&[0xff, 0xd8]));
    let frame = Frame { width: 100, height: 80, rgba: vec![200; 100 * 80 * 4], timestamp_ms: 4 };
    assert_eq!(screen_preview(frame, None, Some((0, 0))).unwrap().masked, None);
    let frame = Frame { width: 100, height: 80, rgba: vec![200; 100 * 80 * 4], timestamp_ms: 4 };
    assert_eq!(screen_preview(frame, Some((5000, 5000, 10, 10)), Some((0, 0))).unwrap().masked, None);
}
