use capto::encode::VideoEncoderKind;
use capto::capture::{CaptureTarget, VirtualScreen, WindowInfo};
use capto::ffmpeg_args::RecordRequest;
use capto::session::{
    after_boot_failure, capture_target_for, captures_screen, req_is_mp4, BootRetry, encoder_choice, may_fall_back_to_libx264, records_audio,
    resolve_capture_region, stop_failure_message, stopped_snapshot, webcam_device, CoreError,
    RecordingClock, SessionControl, SessionState,
};
use capto::settings::{OutputFormat, Region, VideoSourceKind};

#[test]
fn session_runs_start_pause_resume_stop() {
    let mut s = SessionControl::new();
    assert_eq!(s.snapshot(5).state, SessionState::Idle);
    assert!(s.ensure_idle().is_ok());
    let snap = s
        .begin("out.mp4".into(), VideoEncoderKind::Libx264, true, 1_000, 1_000)
        .unwrap_or_else(|_| panic!("begin"));
    assert_eq!(snap.state, SessionState::Recording);
    assert_eq!(snap.output_path.as_deref(), Some("out.mp4"));
    assert_eq!(snap.encoder.as_deref(), Some("libx264"));
    assert!(snap.hide_app);
    assert!(matches!(s.ensure_idle(), Err(CoreError::InvalidState(m)) if m == "already recording"));

    let paused = s.pause(3_000).unwrap_or_else(|_| panic!("pause"));
    assert_eq!(paused.state, SessionState::Paused);
    assert_eq!(paused.elapsed_ms, 2_000);
    assert_eq!(s.snapshot(9_000).elapsed_ms, 2_000);
    assert!(matches!(s.pause(3_500), Err(CoreError::InvalidState(m)) if m == "already paused"));

    let resumed = s.resume(4_000).unwrap_or_else(|_| panic!("resume"));
    assert_eq!(resumed.state, SessionState::Recording);
    assert_eq!(resumed.elapsed_ms, 2_000);
    assert_eq!(s.snapshot(6_000).elapsed_ms, 4_000);
    assert!(matches!(s.resume(6_000), Err(CoreError::InvalidState(m)) if m == "not paused"));

    let rec = s.finish().unwrap_or_else(|_| panic!("finish"));
    let done = stopped_snapshot(&rec);
    assert_eq!(done.state, SessionState::Idle);
    assert_eq!(done.output_path.as_deref(), Some("out.mp4"));
    assert!(!done.hide_app);
    assert_eq!(s.snapshot(7_000).state, SessionState::Idle);
    assert!(matches!(s.finish(), Err(CoreError::InvalidState(m)) if m == "not recording"));
    assert!(matches!(s.pause(1), Err(CoreError::InvalidState(m)) if m == "not recording"));
}

#[test]
fn failures_are_reported_until_the_next_start() {
    let mut s = SessionControl::new();
    s.start_failed("ffmpeg missing".into());
    assert_eq!(s.snapshot(0).last_error.as_deref(), Some("ffmpeg missing"));
    let snap = s
        .begin("a.gif".into(), VideoEncoderKind::Gif, false, 0, 0)
        .unwrap_or_else(|_| panic!("begin"));
    assert_eq!(snap.last_error, None);
    assert!(s
        .begin("b.gif".into(), VideoEncoderKind::Gif, false, 0, 0)
        .is_err());
    let _ = s.finish();
    s.stop_failed("recording failed: x".into());
    assert_eq!(s.snapshot(0).last_error.as_deref(), Some("recording failed: x"));
}

#[test]
fn clock_excludes_paused_time_and_saturates() {
    let c = RecordingClock::start(100);
    assert_eq!(c.elapsed_ms(50), 0);
    assert_eq!(c.elapsed_ms(350), 250);
    assert!(!c.is_paused());
}

#[test]
fn encoder_is_chosen_by_format_request_then_settings() {
    assert_eq!(
        encoder_choice(OutputFormat::Gif, Some(VideoEncoderKind::Libx264), None),
        Some(VideoEncoderKind::Gif)
    );
    assert_eq!(
        encoder_choice(OutputFormat::Mp4, Some(VideoEncoderKind::H264Qsv), Some(VideoEncoderKind::H264Amf)),
        Some(VideoEncoderKind::H264Qsv)
    );
    assert_eq!(
        encoder_choice(OutputFormat::Mp4, None, Some(VideoEncoderKind::H264Amf)),
        Some(VideoEncoderKind::H264Amf)
    );
    assert_eq!(encoder_choice(OutputFormat::AudioOnly, None, None), None);
    assert!(may_fall_back_to_libx264(VideoEncoderKind::H264Nvenc, OutputFormat::Mp4));
    assert!(!may_fall_back_to_libx264(VideoEncoderKind::Libx264, OutputFormat::Mp4));
    assert!(!may_fall_back_to_libx264(VideoEncoderKind::H264Nvenc, OutputFormat::Gif));
}

#[test]
fn stop_failure_quotes_the_last_stderr_lines() {
    let log = "\n  line1\n\nline2\r\n   \nline3\nline4\nline5\nline6\nline7\n\n";
    assert_eq!(
        stop_failure_message(log, "C:/out.mp4"),
        "recording failed: line2 | line3 | line4 | line5 | line6 | line7"
    );
    assert_eq!(
        stop_failure_message("only one", "x"),
        "recording failed: only one"
    );
    assert_eq!(
        stop_failure_message(" \n\t ", "C:/out.mp4"),
        "recording produced no usable file: C:/out.mp4 (ffmpeg wrote nothing to stderr)"
    );
}

fn record_request(source: VideoSourceKind) -> RecordRequest {
    RecordRequest {
        source,
        display_id: None,
        window_id: None,
        region: None,
        include_cursor: true,
        mic_device: None,
        loopback_device: None,
        mic_volume: 100,
        loopback_volume: 100,
        encoder: None,
        format: OutputFormat::Mp4,
        fps: 30,
        quality: 60,
        output_path: "out.mp4".into(),
        hide_app_while_recording: false,
    }
}

#[test]
fn capture_regions_are_resolved_and_clamped() {
    let a = VirtualScreen { x: -1920, y: 0, width: 1920, height: 1080 };
    let b = VirtualScreen { x: 0, y: 0, width: 2560, height: 1440 };
    let screen = VirtualScreen { x: -1920, y: 0, width: 4480, height: 1440 };
    let mut req = record_request(VideoSourceKind::Display);
    req.display_id = Some(1);
    assert_eq!(
        resolve_capture_region(&req, None, &[a, b], None, &screen).ok().flatten(),
        Some(Region { x: 0, y: 0, width: 2560, height: 1440 })
    );
    req.display_id = Some(7);
    assert_eq!(
        resolve_capture_region(&req, None, &[a, b], Some((-1900, 10, 100, 100)), &screen).ok().flatten(),
        Some(Region { x: -1920, y: 0, width: 1920, height: 1080 })
    );
    assert_eq!(resolve_capture_region(&req, None, &[a, b], None, &screen).ok().flatten(), None);
    let mut region_req = record_request(VideoSourceKind::Region);
    region_req.region = Some(Region { x: 2000, y: 100, width: 1000, height: 200 });
    assert_eq!(
        resolve_capture_region(&region_req, None, &[a, b], None, &screen).ok().flatten(),
        Some(Region { x: 2000, y: 100, width: 560, height: 200 })
    );
    region_req.region = Some(Region { x: 9000, y: 100, width: 10, height: 10 });
    match resolve_capture_region(&region_req, None, &[a, b], None, &screen) {
        Err(CoreError::InvalidState(m)) => assert_eq!(m, "capture region is outside the virtual desktop"),
        _ => panic!("expected refusal"),
    }
    let mut win_req = record_request(VideoSourceKind::Window);
    win_req.window_id = Some(3);
    let w = WindowInfo { id: 3, title: "t".into(), app_name: "a".into(), width: 300, height: 200, x: -100, y: 50 };
    assert_eq!(
        resolve_capture_region(&win_req, Some(&w), &[a, b], None, &screen).ok().flatten(),
        Some(Region { x: -100, y: 50, width: 300, height: 200 })
    );
}

#[test]
fn capture_targets_and_webcam_devices() {
    let mut req = record_request(VideoSourceKind::Window);
    assert_eq!(capture_target_for(&req), CaptureTarget::Display { id: 0 });
    req.region = Some(Region { x: 1, y: 2, width: 3, height: 4 });
    assert_eq!(capture_target_for(&req), CaptureTarget::Region { x: 1, y: 2, width: 3, height: 4 });
    req.window_id = Some(9);
    assert_eq!(capture_target_for(&req), CaptureTarget::Window { id: 9 });
    assert_eq!(webcam_device(Some("  cam1 "), Some("label")).as_deref(), Some("cam1"));
    assert_eq!(webcam_device(Some("   "), Some("label")), None);
    assert_eq!(webcam_device(None, Some(" HD Webcam")).as_deref(), Some("HD Webcam"));
    assert!(records_audio(OutputFormat::Mp4) && !records_audio(OutputFormat::Gif));
    assert!(captures_screen(OutputFormat::Gif) && !captures_screen(OutputFormat::AudioOnly));
}

#[test]
fn error_messages() {
    assert_eq!(CoreError::InvalidState("not recording".into()).message(), "invalid state: not recording");
    assert_eq!(CoreError::Message("boom".into()).message(), "boom");
    assert_eq!(
        CoreError::Encode(capto::encode::EncodeError::FfmpegFailed("x".into())).message(),
        "ffmpeg failed: x"
    );
}

#[test]
fn mp4_extension_is_recognised_in_any_case() {
    assert!(req_is_mp4(Some("mp4")));
    assert!(req_is_mp4(Some("MP4")));
    assert!(!req_is_mp4(Some("gif")));
    assert!(!req_is_mp4(Some("mp4.tmp")));
    assert!(!req_is_mp4(None));
}

#[test]
fn failed_boot_falls_back_to_libx264_once_for_mp4() {
    assert_eq!(after_boot_failure(VideoEncoderKind::H264Nvenc, OutputFormat::Mp4, true), BootRetry::WithLibx264);
    assert_eq!(after_boot_failure(VideoEncoderKind::Libx264, OutputFormat::Mp4, false), BootRetry::GiveUp);
    assert_eq!(after_boot_failure(VideoEncoderKind::Libx264, OutputFormat::Mp4, true), BootRetry::GiveUp);
    assert_eq!(after_boot_failure(VideoEncoderKind::Gif, OutputFormat::Gif, true), BootRetry::GiveUp);
}
