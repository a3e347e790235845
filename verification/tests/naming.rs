use capto::naming::{
    crash_file_name, new_recording_name, new_screenshot_name, recording_file_name,
    screenshot_file_name, short_random_id,
};
use capto::settings::OutputFormat;

#[test]
fn names_follow_the_pattern() {
    assert_eq!(
        recording_file_name("20240102-030405", "abcdef01", OutputFormat::Mp4),
        "capto-20240102-030405-abcdef01.mp4"
    );
    assert_eq!(
        recording_file_name("s", "i", OutputFormat::AudioOnly),
        "capto-s-i.m4a"
    );
    assert_eq!(screenshot_file_name("s", "i"), "capto-shot-s-i.png");
    assert_eq!(crash_file_name(1700000000000), "crash-1700000000000.json");
}

#[test]
fn fresh_names_have_an_eight_hex_digit_id() {
    let id = short_random_id();
    assert_eq!(id.len(), 8);
    assert!(id.chars().all(|c| c.is_ascii_digit() || ('a'..='f').contains(&c)));
    let name = new_recording_name(OutputFormat::Gif);
    assert!(name.starts_with("capto-") && name.ends_with(".gif"));
    assert_eq!(name.len(), "capto-".len() + 15 + 1 + 8 + ".gif".len());
    let shot = new_screenshot_name();
    assert!(shot.starts_with("capto-shot-") && shot.ends_with(".png"));
    assert_ne!(new_screenshot_name(), new_screenshot_name());
}
