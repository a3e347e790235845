use capto::encode::{EncodeError, FfmpegEncoder};
use capto::sidecar::{is_triple_ffmpeg_name, sidecar_choice, SidecarDir};
use std::path::PathBuf;

fn listing(exe: bool, plain: bool, names: &[&str]) -> SidecarDir {
    SidecarDir {
        dir: PathBuf::from("bin"),
        has_ffmpeg_exe: exe,
        has_ffmpeg: plain,
        file_names: names.iter().map(|s| s.to_string()).collect(),
    }
}

#[test]
fn resolve_binary_ignores_path_without_sidecar() {
    assert!(FfmpegEncoder::resolve_binary(None).is_none());
}

#[test]
fn plain_name_wins_over_triples() {
    let d = listing(true, true, &["ffmpeg-x86_64-pc-windows-msvc.exe"]);
    assert_eq!(sidecar_choice(&d).as_deref(), Some("ffmpeg.exe"));
    let d2 = listing(false, true, &["ffmpeg-x86_64-pc-windows-msvc.exe"]);
    assert_eq!(sidecar_choice(&d2).as_deref(), Some("ffmpeg"));
    assert_eq!(
        FfmpegEncoder::resolve_binary(Some(&d)),
        Some(PathBuf::from("bin").join("ffmpeg.exe"))
    );
}

#[test]
fn first_triple_in_name_order_is_picked() {
    let d = listing(
        false,
        false,
        &["readme.txt", "ffmpeg-z.exe", "FFMPEG-a-b-c", "ffmpeg-m.dll", "ffmpeg-b.exe"],
    );
    assert_eq!(sidecar_choice(&d).as_deref(), Some("FFMPEG-a-b-c"));
    assert!(FfmpegEncoder::dir_has_ffmpeg(&d));
}

#[test]
fn no_candidate_means_not_found() {
    let d = listing(false, false, &["ffprobe.exe", "ffmpeg-x.dll"]);
    assert_eq!(sidecar_choice(&d), None);
    assert!(matches!(FfmpegEncoder::discover(Some(&d)), Err(EncodeError::FfmpegNotFound)));
    assert!(matches!(FfmpegEncoder::discover(None), Err(EncodeError::FfmpegNotFound)));
    assert!(is_triple_ffmpeg_name("ffmpeg-x86_64-unknown-linux-gnu"));
    assert!(!is_triple_ffmpeg_name("ffmpeg.exe"));
}

#[test]
fn find_ffmpeg_prefers_plain_name() {
    let d = listing(true, false, &["ffmpeg-x86_64-pc-windows-msvc.exe", "ffmpeg.exe"]);
    let found = FfmpegEncoder::resolve_binary(Some(&d)).unwrap();
    assert_eq!(found.file_name().unwrap(), "ffmpeg.exe");
}

#[test]
fn find_ffmpeg_accepts_triple_only() {
    let d = listing(false, false, &["ffmpeg-x86_64-pc-windows-msvc.exe"]);
    let found = FfmpegEncoder::resolve_binary(Some(&d)).unwrap();
    assert!(found.file_name().unwrap().to_string_lossy().starts_with("ffmpeg-"));
}
