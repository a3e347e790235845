use capto::outputs::{
    is_listed_output, no_outputs_message, open_choice, path_not_found_message, recent_outputs_of,
    OpenChoice, OutputFile,
};
use capto::ipc::OpenOutputsRequest;

fn file(name: &str, ext: &str, modified: u64) -> OutputFile {
    OutputFile {
        path: format!("/out/{name}"),
        name: name.to_string(),
        extension: ext.to_string(),
        bytes: 10,
        modified_ms: modified,
    }
}

#[test]
fn recent_outputs_are_newest_first_and_filtered() {
    let files = vec![
        file("capto-a.mp4", "mp4", 5),
        file("notes.txt", "txt", 99),
        file("holiday.JPG", "JPG", 7),
        file("capto_b", "", 5),
        file("capto-c.gif", "gif", 9),
    ];
    let list = recent_outputs_of("/out".into(), &files, 20);
    let names: Vec<&str> = list.items.iter().map(|e| e.name.as_str()).collect();
    assert_eq!(names, ["capto-c.gif", "holiday.JPG", "capto-a.mp4", "capto_b"]);
    assert_eq!(list.output_dir, "/out");
    let one = recent_outputs_of("/out".into(), &files, 0);
    assert_eq!(one.items.len(), 1);
    assert_eq!(one.items[0].name, "capto-c.gif");
    assert!(!is_listed_output(&file("readme.md", "md", 1)));
}

#[test]
fn open_requests_pick_their_target() {
    let folder = OpenOutputsRequest { path: Some("x".into()), folder: true, last: true };
    assert!(matches!(open_choice(folder), Ok(OpenChoice::Folder)));
    let path = OpenOutputsRequest { path: Some("x".into()), folder: false, last: true };
    assert!(matches!(open_choice(path), Ok(OpenChoice::File(p)) if p == "x"));
    let last = OpenOutputsRequest { path: None, folder: false, last: true };
    assert!(matches!(open_choice(last), Ok(OpenChoice::Newest)));
    let none = OpenOutputsRequest { path: None, folder: false, last: false };
    assert!(matches!(open_choice(none), Err(m) if m == "path, last, or folder required"));
    assert_eq!(no_outputs_message(), "no outputs found");
    assert_eq!(path_not_found_message("/x.mp4"), "path not found: /x.mp4");
}
