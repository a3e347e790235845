use capto::paths::{config_path, crash_dir, lock_path, settings_path};

#[test]
fn crash_dir_is_under_config_folder() {
    let dir = crash_dir();
    assert!(dir.ends_with("crashes"), "unexpected crash dir: {}", dir.display());
}

#[test]
fn files_live_in_the_capto_folder() {
    assert!(settings_path().ends_with("Capto/settings.json"));
    assert!(lock_path().ends_with("Capto/cli-server.json"));
    assert_eq!(crash_dir().parent(), settings_path().parent());
    assert!(config_path().path.ends_with("settings.json"));
}
