use capto::overlay::escape_filter_path;

#[test]
fn escape_filter_path_escapes_drive_colon() {
    let escaped = escape_filter_path(r"C:\Windows\Fonts\arial.ttf");
    assert_eq!(escaped, r"C\:/Windows/Fonts/arial.ttf");
}

#[test]
fn escape_filter_path_escapes_quotes() {
    assert_eq!(escape_filter_path("it's.png"), r"it'\''s.png");
    assert_eq!(escape_filter_path("/plain/path.ttf"), "/plain/path.ttf");
    assert_eq!(escape_filter_path(""), "");
}
