//! The index-page renderer: exact substitution, the mailbox asymmetry
//! and byte-identical re-rendering.

use file_sender::numbers::{parse_usize_bounded, usize_to_dec};
use file_sender::render::render_index;
use file_sender::session::FileSender;
use file_sender::text::{dedup_consecutive, replace_all, str_eq};

fn session() -> FileSender {
    FileSender::new("Upload.file".to_string(), 100)
}

#[test]
fn render_substitutes_note_and_file_list() {
    let mut fs = session();
    fs.set_download_text("hello peers".to_string());
    fs.add_download_files(vec!["/data/foo/a.txt".to_string()]);
    let page = render_index("<p>{download_text}</p>{download_files}", &fs);
    assert_eq!(
        page,
        "<p>hello peers</p><ul class=\"file-list\">\
         <li><a href=\"data/download/0\">a.txt</a></li></ul>"
    );
}

#[test]
fn render_numbers_entries_in_order() {
    let mut fs = session();
    fs.add_download_files(vec!["x/one.bin".to_string(), "y/two.bin".to_string()]);
    let page = render_index("{download_files}", &fs);
    assert_eq!(
        page,
        "<ul class=\"file-list\">\
         <li><a href=\"data/download/0\">one.bin</a></li>\
         <li><a href=\"data/download/1\">two.bin</a></li></ul>"
    );
}

#[test]
fn render_twice_is_byte_identical() {
    let mut fs = session();
    fs.set_download_text("note".to_string());
    fs.add_download_files(vec!["a/b.c".to_string()]);
    let template = "{download_text} | {download_files}";
    let first = render_index(template, &fs);
    let second = render_index(template, &fs);
    assert_eq!(first, second);
}

#[test]
fn received_note_never_reaches_the_page() {
    let mut fs = session();
    fs.set_download_text("offered".to_string());
    let template = "{download_text}{download_files}";
    let before = render_index(template, &fs);
    fs.set_upload_text("pushed by a peer".to_string());
    fs.set_last_upload(Some("f.bin".to_string()), false);
    let after = render_index(template, &fs);
    assert_eq!(before, after);
    assert!(!after.contains("pushed by a peer"));
}

#[test]
fn offered_note_edit_is_visible_on_the_next_render() {
    let mut fs = session();
    fs.set_download_text("first".to_string());
    let template = "note: {download_text}";
    assert_eq!(render_index(template, &fs), "note: first");
    fs.set_download_text("second".to_string());
    assert_eq!(render_index(template, &fs), "note: second");
}

#[test]
fn template_without_placeholders_is_untouched() {
    let fs = session();
    assert_eq!(render_index("plain page", &fs), "plain page");
}

#[test]
fn replace_all_scans_left_to_right() {
    assert_eq!(replace_all("aaa", "aa", "b"), "ba");
    assert_eq!(replace_all("xyx", "y", "yy"), "xyyx");
    assert_eq!(replace_all("abc", "", "z"), "abc");
    assert_eq!(replace_all("no match", "zz", "y"), "no match");
}

#[test]
fn numerals_print_and_parse() {
    assert_eq!(usize_to_dec(0), "0");
    assert_eq!(usize_to_dec(10), "10");
    assert_eq!(usize_to_dec(12345), "12345");
    assert_eq!(parse_usize_bounded("42", 100), Some(42));
    assert_eq!(parse_usize_bounded("100", 100), Some(100));
    assert_eq!(parse_usize_bounded("101", 100), None);
    assert_eq!(parse_usize_bounded("007", 10), Some(7));
    assert_eq!(parse_usize_bounded("", 10), None);
    assert_eq!(parse_usize_bounded("4a", 10), None);
}

#[test]
fn string_equality_is_exact() {
    assert!(str_eq("abc", "abc"));
    assert!(!str_eq("abc", "abd"));
    assert!(!str_eq("abc", "ab"));
    assert!(str_eq("", ""));
}

#[test]
fn consecutive_duplicate_names_collapse() {
    let names = vec![
        "Accept".to_string(),
        "Accept".to_string(),
        "Host".to_string(),
        "Accept".to_string(),
    ];
    let deduped = dedup_consecutive(&names);
    assert_eq!(
        deduped,
        vec!["Accept".to_string(), "Host".to_string(), "Accept".to_string()]
    );
}
