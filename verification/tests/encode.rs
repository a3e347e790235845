use capto::encode::{
    encoders_from_listing, parse_dshow_video_devices, pick_best_h264_from, ranked_h264_from,
    resolve_dshow_video_name, FfmpegEncoder, VideoEncoderKind,
};

#[test]
fn parses_dshow_video_device_lines() {
    let sample = r#"
[dshow @ 000001] "Integrated Camera" (video)
[dshow @ 000001]   Alternative name "@device_pnp_..."
[dshow @ 000001] "Microphone" (audio)
[in#0 @ 000002] "OBS Virtual Camera" (video)
"#;
    let devices = parse_dshow_video_devices(sample);
    assert_eq!(
        devices,
        vec![
            "Integrated Camera".to_string(),
            "OBS Virtual Camera".to_string()
        ]
    );
}

#[test]
fn resolves_preferred_or_first() {
    let devices = vec!["Integrated Camera".into(), "USB Cam".into()];
    assert_eq!(
        resolve_dshow_video_name(None, &devices).as_deref(),
        Some("Integrated Camera")
    );
    assert_eq!(
        resolve_dshow_video_name(Some("USB Cam"), &devices).as_deref(),
        Some("USB Cam")
    );
    assert_eq!(
        resolve_dshow_video_name(Some("Integrated Camera (abc)"), &devices).as_deref(),
        Some("Integrated Camera")
    );
}

#[test]
fn dshow_parse_dedups_trims_and_handles_crlf() {
    let sample = "[dshow] \"  Cam A \" (video)\r\n[dshow] \"Cam A\" (video)\r\n[dshow] \"\" (video)\n[x] \"Cam B\" (video)";
    assert_eq!(parse_dshow_video_devices(sample), vec!["Cam A".to_string(), "Cam B".to_string()]);
    assert!(parse_dshow_video_devices("").is_empty());
}

#[test]
fn resolve_dshow_handles_case_blank_and_empty() {
    let devices: Vec<String> = vec!["Integrated Camera".into(), "USB Cam".into()];
    assert_eq!(resolve_dshow_video_name(Some("usb cam"), &devices).as_deref(), Some("USB Cam"));
    assert_eq!(resolve_dshow_video_name(Some("   "), &devices).as_deref(), Some("Integrated Camera"));
    assert_eq!(resolve_dshow_video_name(Some("Nothing"), &devices).as_deref(), Some("Integrated Camera"));
    assert_eq!(resolve_dshow_video_name(Some("usb"), &devices).as_deref(), Some("USB Cam"));
    assert_eq!(resolve_dshow_video_name(Some("x"), &[]), None);
}

#[test]
fn encoder_names_and_hardware() {
    assert_eq!(VideoEncoderKind::H264Nvenc.ffmpeg_name(), "h264_nvenc");
    assert_eq!(VideoEncoderKind::HevcAmf.ffmpeg_name(), "hevc_amf");
    assert_eq!(VideoEncoderKind::Gif.ffmpeg_name(), "gif");
    assert!(VideoEncoderKind::H264Qsv.is_hardware());
    assert!(!VideoEncoderKind::Libx264.is_hardware());
    assert!(!VideoEncoderKind::Gif.is_hardware());
}

#[test]
fn encoder_args_per_family() {
    assert_eq!(
        FfmpegEncoder::video_encoder_args(VideoEncoderKind::Libx264, 23),
        vec!["-c:v", "libx264", "-preset", "veryfast", "-crf", "23", "-pix_fmt", "yuv420p"]
    );
    assert_eq!(
        FfmpegEncoder::video_encoder_args(VideoEncoderKind::H264Nvenc, 0),
        vec!["-c:v", "h264_nvenc", "-preset", "p4", "-rc", "vbr", "-cq", "0", "-b:v", "0", "-pix_fmt", "yuv420p"]
    );
    assert_eq!(
        FfmpegEncoder::video_encoder_args(VideoEncoderKind::HevcQsv, 255),
        vec!["-c:v", "hevc_qsv", "-global_quality", "255", "-look_ahead", "1", "-pix_fmt", "yuv420p"]
    );
    assert_eq!(
        FfmpegEncoder::video_encoder_args(VideoEncoderKind::H264Amf, 30),
        vec!["-c:v", "h264_amf", "-quality", "balanced", "-rc", "cqp", "-qp_i", "30", "-qp_p", "30", "-pix_fmt", "yuv420p"]
    );
    assert_eq!(FfmpegEncoder::video_encoder_args(VideoEncoderKind::Gif, 30), vec!["-c:v", "gif"]);
}

#[test]
fn probe_listing_ranks_and_picks() {
    let listing = " V....D h264_qsv   H.264\n V....D libx264  x264\n V..... gif";
    let probe = encoders_from_listing(listing);
    assert_eq!(probe.len(), 9);
    assert_eq!(probe[0].name, "h264_nvenc");
    assert!(!probe[0].available);
    assert!(probe[1].available && probe[1].hardware);
    assert!(probe[3].available && !probe[3].hardware);
    assert!(probe[8].available);
    assert_eq!(
        ranked_h264_from(&probe),
        vec![VideoEncoderKind::H264Qsv, VideoEncoderKind::Libx264]
    );
    assert_eq!(pick_best_h264_from(&probe), VideoEncoderKind::H264Qsv);
    assert_eq!(pick_best_h264_from(&encoders_from_listing("")), VideoEncoderKind::Libx264);
}
