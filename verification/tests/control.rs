use capto::control::{
    capture_target, capture_target_found, check_auth, default_start_from_settings, doctor_info,
    map_err, metrics_reply, record_request_for, recent_limit, request_breadcrumb, request_id_for,
    status_metric_name, unauthorized,
    start_error_code, status_for_code, RecordDefaults,
};
use capto::capture::{CaptureTarget, WindowInfo};
use capto::encode::VideoEncoderKind;
use capto::metrics::MetricsSnapshot;
use capto::ipc::{RecordStartRequest, ShotRequest};
use capto::settings::{OutputFormat, Region, VideoSourceKind};

fn bearer(token: &str) -> String {
    format!("Bearer {token}")
}

#[test]
fn auth_accepts_exact_token() {
    assert!(check_auth(Some(&bearer("s3cret-token")), "s3cret-token"));
}

#[test]
fn auth_rejects_missing_header() {
    assert!(!check_auth(None, "s3cret-token"));
}

#[test]
fn auth_rejects_wrong_token() {
    assert!(!check_auth(Some(&bearer("wrong")), "s3cret-token"));
}

#[test]
fn auth_rejects_non_bearer_scheme() {
    assert!(!check_auth(Some("Basic dXNlcjpwYXNz"), "s3cret-token"));
}

#[test]
fn auth_rejects_bare_bearer_without_value() {
    assert!(!check_auth(Some("Bearer"), "s3cret-token"));
}

#[test]
fn auth_is_case_sensitive_on_scheme_and_token() {
    assert!(!check_auth(Some("bearer s3cret-token"), "s3cret-token"));
    assert!(!check_auth(Some("Bearer S3CRET-TOKEN"), "s3cret-token"));
    assert!(!check_auth(Some("Bearer s3cret-token "), "s3cret-token"));
}

#[test]
fn error_codes_map_to_statuses() {
    assert_eq!(status_for_code("stateConflict"), 409);
    assert_eq!(status_for_code("notFound"), 404);
    assert_eq!(status_for_code("badRequest"), 400);
    assert_eq!(status_for_code("capture"), 500);
    assert_eq!(status_for_code("configIo"), 500);
}

#[test]
fn start_errors_are_classified() {
    assert_eq!(start_error_code("invalid state: already recording"), "stateConflict");
    assert_eq!(start_error_code("already recording"), "stateConflict");
    assert_eq!(start_error_code("FFmpeg exited early"), "encode");
    assert_eq!(start_error_code("Encoder h264_nvenc failed"), "encode");
    assert_eq!(start_error_code("display not found: 3"), "capture");
}

#[test]
fn shot_targets_follow_the_source() {
    let display = ShotRequest { source: VideoSourceKind::Display, display_id: None, window_id: None, region: None };
    assert_eq!(capture_target(&display), Ok(CaptureTarget::Display { id: 0 }));
    let display2 = ShotRequest { display_id: Some(2), ..display };
    assert_eq!(capture_target(&display2), Ok(CaptureTarget::Display { id: 2 }));
    let no_region = ShotRequest { source: VideoSourceKind::Region, display_id: None, window_id: None, region: None };
    assert_eq!(capture_target(&no_region), Err("region required".to_string()));
    let region = Region { x: 5, y: 6, width: 7, height: 8 };
    let with_region = ShotRequest { region: Some(region), ..no_region };
    assert_eq!(
        capture_target(&with_region),
        Ok(CaptureTarget::Region { x: 5, y: 6, width: 7, height: 8 })
    );
}

#[test]
fn window_targets_need_an_id_and_fall_back_to_region() {
    let no_id = ShotRequest { source: VideoSourceKind::Window, display_id: None, window_id: None, region: None };
    assert_eq!(capture_target(&no_id), Err("windowId required".to_string()));
    let gone = ShotRequest { window_id: Some(9), ..no_id };
    assert_eq!(
        capture_target(&gone),
        Err("selected window is gone — pick it again".to_string())
    );
    let region = Region { x: 1, y: 2, width: 3, height: 4 };
    let fallback = ShotRequest { region: Some(region), ..gone };
    assert_eq!(
        capture_target(&fallback),
        Ok(CaptureTarget::Region { x: 1, y: 2, width: 3, height: 4 })
    );
    let w = WindowInfo { id: 9, title: "t".into(), app_name: "a".into(), width: 1, height: 500, x: -3, y: 4 };
    assert_eq!(
        capture_target_found(&gone, Some(&w)),
        Ok(CaptureTarget::Region { x: -3, y: 4, width: 2, height: 500 })
    );
}

fn defaults() -> RecordDefaults {
    RecordDefaults {
        source: VideoSourceKind::Window,
        display_id: Some(1),
        window_id: Some(77),
        region: None,
        include_cursor: true,
        mic_device: Some("wasapi:capture:mic".into()),
        loopback_device: None,
        mic_volume: 100,
        loopback_volume: 80,
        preferred_encoder: Some(VideoEncoderKind::H264Nvenc),
        output_format: OutputFormat::Mp4,
        fps: 30,
        quality: 60,
        hide_app_while_recording: true,
    }
}

#[test]
fn start_request_takes_settings_for_open_choices() {
    let req = record_request_for(RecordStartRequest::default(), &defaults(), "out.mp4".to_string());
    assert_eq!(req.source, VideoSourceKind::Display);
    assert_eq!(req.display_id, Some(1));
    assert!(req.include_cursor);
    assert_eq!(req.mic_volume, 100);
    assert_eq!(req.loopback_volume, 80);
    assert_eq!(req.encoder, Some(VideoEncoderKind::H264Nvenc));
    assert_eq!(req.format, OutputFormat::Mp4);
    assert_eq!(req.fps, 30);
    assert_eq!(req.quality, 60);
    assert_eq!(req.output_path, "out.mp4");
    assert!(req.hide_app_while_recording);
}

#[test]
fn start_request_caps_volume_and_clamps_quality() {
    let args = RecordStartRequest {
        mic_volume: Some(250),
        quality: Some(0),
        fps: Some(60),
        format: Some(OutputFormat::Gif),
        ..RecordStartRequest::default()
    };
    let req = record_request_for(args, &defaults(), "x.gif".to_string());
    assert_eq!(req.mic_volume, 200);
    assert_eq!(req.quality, 1);
    assert_eq!(req.fps, 60);
    assert_eq!(req.format, OutputFormat::Gif);
    let args2 = RecordStartRequest { quality: Some(180), ..RecordStartRequest::default() };
    assert_eq!(record_request_for(args2, &defaults(), "y".to_string()).quality, 100);
}

#[test]
fn defaults_spell_out_the_settings() {
    let mut d = defaults();
    d.display_id = None;
    let req = default_start_from_settings(&d);
    assert_eq!(req.source, VideoSourceKind::Window);
    assert_eq!(req.display_id, Some(0));
    assert_eq!(req.window_id, Some(77));
    assert_eq!(req.mic_device.as_deref(), Some("wasapi:capture:mic"));
    assert_eq!(req.quality, Some(60));
    assert_eq!(req.format, Some(OutputFormat::Mp4));
    let info = doctor_info("windows", "dxgi", None, false, 7, 9000, Some(VideoEncoderKind::H264Qsv));
    assert_eq!(info.preferred_encoder.as_deref(), Some("h264_qsv"));
    assert!(info.control_plane);
    assert_eq!((info.pid, info.port), (7, 9000));
}

#[test]
fn recent_outputs_default_to_twenty() {
    assert_eq!(recent_limit(None), 20);
    assert_eq!(recent_limit(Some(3)), 3);
}

#[test]
fn refused_and_failed_requests_get_error_envelopes() {
    let (status, env) = unauthorized();
    assert_eq!(status, 401);
    assert!(!env.ok);
    let e = env.error.unwrap();
    assert_eq!((e.code.as_str(), e.message.as_str()), ("unauthorized", "invalid or missing bearer token"));

    let (status, env) = map_err("stateConflict", "already recording".to_string());
    assert_eq!(status, 409);
    assert_eq!(env.error.unwrap().message, "already recording");
    assert_eq!(map_err("configIo", "disk full".to_string()).0, 500);
}

#[test]
fn metrics_reply_follows_the_flag() {
    let snap = MetricsSnapshot { uptime_ms: 42, counters: Vec::new(), durations: Vec::new() };
    let env = metrics_reply(true, snap).unwrap();
    assert!(env.ok);
    assert_eq!(env.data.unwrap().uptime_ms, 42);
    match metrics_reply(false, MetricsSnapshot::default()) {
        Err((404, env)) => {
            let e = env.error.unwrap();
            assert_eq!((e.code.as_str(), e.message.as_str()), ("notFound", "metrics disabled by feature flag"));
        }
        _ => panic!("metrics served while disabled"),
    }
}

#[test]
fn request_bookkeeping_texts() {
    assert_eq!(status_metric_name(404), "http_status_404");
    assert_eq!(request_breadcrumb("POST", "/v1/record/start", 200), "POST /v1/record/start -> 200");
    assert_eq!(request_id_for(Some("req-9"), "fresh".to_string()), "req-9");
    assert_eq!(request_id_for(Some(""), "fresh".to_string()), "fresh");
    assert_eq!(request_id_for(None, "fresh".to_string()), "fresh");
}
