use capto::audio::{AudioDeviceKind, PcmInputSpec};
use capto::capture::{virtual_screen, VirtualScreen};
use capto::encode::VideoEncoderKind;
use capto::ffmpeg_args::{
    build_record_args, build_record_args_on, default_audio_volume, record_frame_size_on, default_record_quality, quality_to_crf,
    record_frame_size, remux_args, RecordRequest,
};
use capto::settings::{OutputFormat, Region, VideoSourceKind};

fn request(format: OutputFormat, region: Option<Region>) -> RecordRequest {
    RecordRequest {
        source: VideoSourceKind::Region,
        display_id: None,
        window_id: None,
        region,
        include_cursor: true,
        mic_device: None,
        loopback_device: None,
        mic_volume: 100,
        loopback_volume: 100,
        encoder: None,
        format,
        fps: 30,
        quality: 60,
        output_path: "out.mp4".into(),
        hide_app_while_recording: true,
    }
}

/// The command line of the native screen pump on this machine's desktop.
fn pump_args(req: &RecordRequest, encoder: VideoEncoderKind, pcm: &[PcmInputSpec]) -> Vec<String> {
    build_record_args_on(req, encoder, pcm, &virtual_screen())
}

#[test]
fn builds_region_args_uses_rawvideo_pipe() {
    let req = request(
        OutputFormat::Mp4,
        Some(Region { x: 10, y: 20, width: 800, height: 600 }),
    );
    let args = build_record_args(&req, VideoEncoderKind::Libx264, &[]);
    assert!(args.iter().any(|a| a.ends_with("out.mp4")));
    let args = pump_args(&req, VideoEncoderKind::Libx264, &[]);
    assert!(args.iter().any(|a| a.ends_with("out.mp4")));
    assert!(args.windows(2).any(|w| w == ["-f", "rawvideo"]));
    assert!(args.windows(2).any(|w| w == ["-pix_fmt", "bgra"]));
    assert!(args.contains(&"pipe:0".to_string()));
    assert!(args.windows(2).any(|w| w == ["-video_size", "800x600"]));
}

#[test]
fn maps_and_mixes_native_pcm_inputs() {
    let mut req = request(OutputFormat::Mp4, None);
    req.source = VideoSourceKind::Display;
    req.display_id = Some(0);
    req.mic_device = Some("wasapi:capture:mic-id".into());
    req.loopback_device = Some("wasapi:render:speaker-id".into());
    req.mic_volume = 125;
    req.loopback_volume = 75;
    req.hide_app_while_recording = false;
    let pcm = vec![
        PcmInputSpec {
            kind: AudioDeviceKind::Input,
            url: "tcp://127.0.0.1:41001".into(),
            sample_rate: 48_000,
            channels: 2,
        },
        PcmInputSpec {
            kind: AudioDeviceKind::Loopback,
            url: "tcp://127.0.0.1:41002".into(),
            sample_rate: 48_000,
            channels: 2,
        },
    ];
    let args = pump_args(&req, VideoEncoderKind::Libx264, &pcm);
    assert_eq!(args.iter().filter(|arg| *arg == "f32le").count(), 2);
    assert_eq!(
        args.windows(2).filter(|pair| *pair == ["-analyzeduration", "0"]).count(),
        2
    );
    assert_eq!(args.windows(2).filter(|pair| *pair == ["-probesize", "32"]).count(), 2);
    assert!(args.iter().any(|arg| {
        arg.contains("volume=1.25")
            && arg.contains("volume=0.75")
            && arg.contains("amix=inputs=2")
            && arg.contains("normalize=0")
    }));
    assert!(args.windows(2).any(|pair| pair == ["-map", "0:v"]));
    assert!(args.windows(2).any(|pair| pair == ["-map", "[aout]"]));
    let graph = args
        .windows(2)
        .find(|pair| pair[0] == "-filter_complex")
        .map(|pair| pair[1].as_str())
        .expect("audio mix graph");
    assert!(!graph.contains("[0:v]"));
}

#[test]
fn webcam_enabled_does_not_add_dshow_input() {
    let mut req = request(
        OutputFormat::Mp4,
        Some(Region { x: 0, y: 0, width: 1920, height: 1080 }),
    );
    req.source = VideoSourceKind::Display;
    req.display_id = Some(0);
    req.hide_app_while_recording = false;
    let args = pump_args(&req, VideoEncoderKind::Libx264, &[]);
    assert!(!args.windows(2).any(|w| w == ["-f", "dshow"]));
    assert!(!args.iter().any(|a| a.contains("overlay=")));
    assert!(args.windows(2).any(|w| w == ["-f", "rawvideo"]));
    assert!(args.contains(&"pipe:0".to_string()));
    assert!(!args.iter().any(|a| a == "-shortest"));
    assert!(args.iter().any(|a| a.contains("frag_keyframe")));
    assert!(args.windows(2).any(|w| w == ["-use_wallclock_as_timestamps", "1"]));
}

#[test]
fn full_command_line_without_audio() {
    let req = request(OutputFormat::Mp4, Some(Region { x: 0, y: 0, width: 801, height: 1 }));
    let args = pump_args(&req, VideoEncoderKind::Libx264, &[]);
    let expected = [
        "-y", "-hide_banner", "-loglevel", "warning", "-thread_queue_size", "512",
        "-use_wallclock_as_timestamps", "1", "-f", "rawvideo", "-pix_fmt", "bgra",
        "-video_size", "800x2", "-framerate", "30", "-thread_queue_size", "64", "-i", "pipe:0",
        "-vf", "scale=trunc(iw/2)*2:trunc(ih/2)*2", "-c:v", "libx264", "-preset", "veryfast",
        "-crf", "32", "-pix_fmt", "yuv420p", "-an", "-fps_mode", "cfr", "-movflags",
        "+frag_keyframe+empty_moov+default_base_moof", "out.mp4",
    ];
    assert_eq!(args, expected);
}

#[test]
fn gif_uses_palette_graph_at_most_fifteen_fps() {
    let mut req = request(OutputFormat::Gif, None);
    req.output_path = "out.gif".into();
    req.fps = 60;
    let args = pump_args(&req, VideoEncoderKind::Gif, &[]);
    let n = args.len();
    assert_eq!(args[n - 5], "-filter_complex");
    assert!(args[n - 4].starts_with("[0:v]fps=15,scale=iw:-1:flags=lanczos"));
    assert_eq!(&args[n - 3..], ["-c:v", "gif", "out.gif"]);
    assert!(args.windows(2).any(|w| w == ["-video_size", "1920x1080"]));
}

#[test]
fn single_input_is_mapped_with_its_gain() {
    let mut req = request(OutputFormat::AudioOnly, None);
    req.output_path = "out.m4a".into();
    req.mic_volume = 7;
    let pcm = vec![PcmInputSpec {
        kind: AudioDeviceKind::Input,
        url: "tcp://127.0.0.1:5000".into(),
        sample_rate: 44_100,
        channels: 1,
    }];
    let args = pump_args(&req, VideoEncoderKind::Libx264, &pcm);
    let tail: Vec<&str> = args[34..].iter().map(|s| s.as_str()).collect();
    assert_eq!(
        tail,
        [
            "-vf", "scale=trunc(iw/2)*2:trunc(ih/2)*2", "-vn", "-map", "1:a", "-af",
            "volume=0.07", "-c:a", "aac", "-b:a", "192k", "-fps_mode", "cfr", "out.m4a",
        ]
    );
    assert!(args.windows(2).any(|w| w == ["-ar", "44100"]));
}

#[test]
fn volumes_above_two_hundred_are_capped() {
    let mut req = request(OutputFormat::Mp4, None);
    req.mic_volume = 250;
    req.loopback_volume = 50;
    let pcm = vec![
        PcmInputSpec { kind: AudioDeviceKind::Input, url: "a".into(), sample_rate: 48_000, channels: 2 },
        PcmInputSpec { kind: AudioDeviceKind::Output, url: "b".into(), sample_rate: 48_000, channels: 2 },
    ];
    let args = pump_args(&req, VideoEncoderKind::Libx264, &pcm);
    let graph = args.windows(2).find(|p| p[0] == "-filter_complex").map(|p| p[1].clone()).unwrap();
    assert_eq!(
        graph,
        "[1:a]volume=2[a1];[2:a]volume=0.5[a2];[a1][a2]amix=inputs=2:duration=shortest:dropout_transition=0:normalize=0[aout]"
    );
}

#[test]
fn quality_maps_to_crf() {
    assert_eq!(quality_to_crf(0), 51);
    assert_eq!(quality_to_crf(1), 51);
    assert_eq!(quality_to_crf(60), 32);
    assert_eq!(quality_to_crf(100), 18);
    assert_eq!(quality_to_crf(255), 18);
    assert_eq!(default_record_quality(), 60);
    assert_eq!(default_audio_volume(), 100);
}

#[test]
fn frame_size_is_even_and_at_least_two() {
    let req = request(OutputFormat::Mp4, Some(Region { x: 0, y: 0, width: 1, height: 1079 }));
    assert_eq!(record_frame_size(&req), (2, 1078));
    let req2 = request(OutputFormat::Mp4, None);
    assert_eq!(record_frame_size(&req2), (1920, 1080));
}

#[test]
fn remux_copies_streams_with_faststart() {
    assert_eq!(
        remux_args("a.tmp.mp4", "a.mp4"),
        vec![
            "-y", "-hide_banner", "-loglevel", "error", "-i", "a.tmp.mp4", "-c", "copy", "-movflags",
            "+faststart", "a.mp4",
        ]
    );
}

#[test]
fn recording_without_region_uses_the_given_desktop() {
    let screen = VirtualScreen { x: -2560, y: 0, width: 5121, height: 1440 };
    let req = request(OutputFormat::Mp4, None);
    assert_eq!(record_frame_size_on(&req, &screen), (5120, 1440));
    let args = build_record_args_on(&req, VideoEncoderKind::Libx264, &[], &screen);
    let i = args.iter().position(|a| a == "-video_size").unwrap();
    assert_eq!(args[i + 1], "5120x1440");
    let with_region = request(OutputFormat::Mp4, Some(Region { x: 0, y: 0, width: 800, height: 600 }));
    assert_eq!(record_frame_size_on(&with_region, &screen), (800, 600));
}

#[test]
fn without_the_screen_pump_a_placeholder_clip_is_recorded() {
    let mut req = request(OutputFormat::Mp4, None);
    req.output_path = "clip.mp4".into();
    let pcm = vec![PcmInputSpec {
        kind: AudioDeviceKind::Input,
        url: "tcp://127.0.0.1:5000".into(),
        sample_rate: 48_000,
        channels: 2,
    }];
    let args = build_record_args(&req, VideoEncoderKind::Libx264, &pcm);
    assert_eq!(
        args,
        vec!["-y", "-f", "lavfi", "-i", "color=c=black:s=1280x720:r=30", "-t", "0.1", "clip.mp4"]
    );
}
