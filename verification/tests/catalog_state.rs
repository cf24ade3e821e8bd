//! The session record and the download catalog: index stability,
//! display names and the bounds-checked download lookup.

use file_sender::catalog::{extension_of, get_filename};
use file_sender::session::FileSender;

fn session_with(paths: &[&str]) -> FileSender {
    let mut fs = FileSender::new("Upload.file".to_string(), 100);
    let mut v = Vec::new();
    for p in paths {
        v.push(p.to_string());
    }
    fs.add_download_files(v);
    fs
}

#[test]
fn new_session_is_empty() {
    let fs = FileSender::new("Upload.file".to_string(), 42);
    assert_eq!(fs.upload_file_name, "Upload.file");
    assert_eq!(fs.upload_file_size, 42);
    assert_eq!(fs.upload_text, "");
    assert_eq!(fs.download_text, "");
    assert_eq!(fs.download_count(), 0);
    assert!(fs.last_upload.is_none());
}

#[test]
fn removing_the_middle_entry_shifts_later_ones_down() {
    let mut fs = session_with(&["A", "B", "C"]);
    let removed = fs.remove_download_file(1);
    assert_eq!(removed, Some("B".to_string()));
    assert_eq!(fs.download_count(), 2);
    assert_eq!(fs.get_download(0).unwrap().0, "A");
    assert_eq!(fs.get_download(1).unwrap().0, "C");
    assert!(fs.get_download(2).is_none());
}

#[test]
fn removing_out_of_range_changes_nothing() {
    let mut fs = session_with(&["A", "B"]);
    assert_eq!(fs.remove_download_file(2), None);
    assert_eq!(fs.download_count(), 2);
}

#[test]
fn appending_keeps_existing_order() {
    let mut fs = session_with(&["A"]);
    fs.add_download_files(vec!["B".to_string()]);
    assert_eq!(fs.get_download(0).unwrap().0, "A");
    assert_eq!(fs.get_download(1).unwrap().0, "B");
}

#[test]
fn display_name_is_the_base_name() {
    assert_eq!(get_filename("/home/someone/foo/bar.pdf"), "bar.pdf");
    assert_eq!(get_filename("bar.pdf"), "bar.pdf");
    assert_eq!(get_filename("foo/bar.pdf"), "bar.pdf");
}

#[test]
fn display_name_ignores_trailing_separators_and_dots() {
    assert_eq!(get_filename("a/b/"), "b");
    assert_eq!(get_filename("a//"), "a");
    assert_eq!(get_filename("x/."), "x");
    assert_eq!(get_filename("foo.txt/."), "foo.txt");
}

#[test]
fn display_name_falls_back_to_unknown() {
    assert_eq!(get_filename(""), "unknown");
    assert_eq!(get_filename("/"), "unknown");
    assert_eq!(get_filename("./"), "unknown");
    assert_eq!(get_filename("a/.."), "unknown");
    assert_eq!(get_filename(".."), "unknown");
    assert_eq!(get_filename("."), "unknown");
}

#[test]
fn download_naming_ignores_the_directory() {
    let fs = session_with(&["/tmp/stuff/foo/bar.pdf"]);
    let (path, name) = fs.get_download(0).unwrap();
    assert_eq!(path, "/tmp/stuff/foo/bar.pdf");
    assert_eq!(name, "bar.pdf");
}

#[test]
fn list_names_in_catalog_order() {
    let fs = session_with(&["/a/x.txt", "/b/y.txt"]);
    let names = fs.list_download_names();
    assert_eq!(names, vec!["x.txt".to_string(), "y.txt".to_string()]);
}

#[test]
fn lookup_accepts_plain_numerals_in_range() {
    let fs = session_with(&["/a/x.txt", "/b/y.txt"]);
    let (path, name) = fs.lookup_download("1").unwrap();
    assert_eq!(path, "/b/y.txt");
    assert_eq!(name, "y.txt");
    // Leading zeros and a plus sign still name the same index, as std
    // reads an unsigned integer.
    assert_eq!(fs.lookup_download("01").unwrap().0, "/b/y.txt");
    assert_eq!(fs.lookup_download("+1").unwrap().0, "/b/y.txt");
}

#[test]
fn lookup_rejects_out_of_range_and_malformed_indices() {
    let fs = session_with(&["/a/x.txt", "/b/y.txt"]);
    assert!(fs.lookup_download("2").is_none());
    assert!(fs.lookup_download("-1").is_none());
    assert!(fs.lookup_download("+").is_none());
    assert!(fs.lookup_download("abc").is_none());
    assert!(fs.lookup_download("").is_none());
    assert!(fs.lookup_download("1x").is_none());
    assert!(fs.lookup_download("184467440737095516160").is_none());
}

#[test]
fn extensions_come_from_the_final_component() {
    assert_eq!(extension_of("Web/static/style.css"), Some("css".to_string()));
    assert_eq!(extension_of("archive.tar.gz"), Some("gz".to_string()));
    assert_eq!(extension_of("noext"), None);
    assert_eq!(extension_of(".hidden"), None);
    assert_eq!(extension_of("dir.d/noext"), None);
    assert_eq!(extension_of("trailing."), Some("".to_string()));
    assert_eq!(extension_of("foo.txt/."), Some("txt".to_string()));
    assert_eq!(extension_of("a/.."), None);
}

#[test]
fn notes_are_stored_separately() {
    let mut fs = session_with(&[]);
    fs.set_download_text("offered".to_string());
    fs.set_upload_text("received".to_string());
    assert_eq!(fs.download_text, "offered");
    assert_eq!(fs.upload_text, "received");
}
