//! The upload acceptor's rules on concrete inputs: sanitization,
//! collision-safe naming and the size cap.

use file_sender::upload::{plan_upload, resolve_collision, sanitize_file_name, FilePartInfo,
    UploadError};

fn strings(items: &[&str]) -> Vec<String> {
    let mut v = Vec::new();
    for s in items {
        v.push(s.to_string());
    }
    v
}

#[test]
fn sanitize_keeps_plain_names() {
    let r = sanitize_file_name("report-2.txt", "Upload.file");
    assert_eq!(r, "report-2.txt");
}

#[test]
fn sanitize_rejects_space() {
    let r = sanitize_file_name("bad name.txt", "Upload.file");
    assert_eq!(r, "Upload.file");
}

#[test]
fn sanitize_rejects_path_separators() {
    let r = sanitize_file_name("../../etc/passwd", "Upload.file");
    assert_eq!(r, "Upload.file");
}

#[test]
fn sanitize_rejects_non_ascii() {
    let r = sanitize_file_name("r\u{00e9}sum\u{00e9}.pdf", "Upload.file");
    assert_eq!(r, "Upload.file");
}

#[test]
fn sanitize_keeps_empty_candidate() {
    // An empty name has no disallowed character; emptiness is handled
    // before sanitization, by falling back when no name was declared.
    let r = sanitize_file_name("", "Upload.file");
    assert_eq!(r, "");
}

#[test]
fn collision_free_name_is_kept() {
    let existing = strings(&["other.txt"]);
    let r = resolve_collision("report.txt", &existing);
    assert_eq!(r, "report.txt");
}

#[test]
fn collision_taken_name_gets_counter_zero() {
    let existing = strings(&["report.txt"]);
    let r = resolve_collision("report.txt", &existing);
    assert_eq!(r, "0-report.txt");
}

#[test]
fn collision_second_upload_gets_counter_one() {
    let existing = strings(&["report.txt", "0-report.txt"]);
    let r = resolve_collision("report.txt", &existing);
    assert_eq!(r, "1-report.txt");
}

#[test]
fn collision_skips_taken_counters_in_any_order() {
    let existing = strings(&["1-a", "a", "0-a"]);
    let r = resolve_collision("a", &existing);
    assert_eq!(r, "2-a");
}

#[test]
fn plan_rejects_missing_file_part() {
    let existing: Vec<String> = Vec::new();
    let r = plan_upload(None, 100, "Upload.file", &existing);
    assert_eq!(r, Err(UploadError::Missing));
}

#[test]
fn plan_rejects_one_byte_over_the_cap() {
    let existing: Vec<String> = Vec::new();
    let part = FilePartInfo { filename: Some("a.txt".to_string()), size: 101 };
    let r = plan_upload(Some(part), 100, "Upload.file", &existing);
    assert_eq!(r, Err(UploadError::TooLarge));
}

#[test]
fn plan_accepts_exactly_at_the_cap() {
    let existing: Vec<String> = Vec::new();
    let part = FilePartInfo { filename: Some("a.txt".to_string()), size: 100 };
    let r = plan_upload(Some(part), 100, "Upload.file", &existing);
    assert_eq!(r, Ok("a.txt".to_string()));
}

#[test]
fn plan_accepts_one_byte_under_the_cap() {
    let existing: Vec<String> = Vec::new();
    let part = FilePartInfo { filename: Some("a.txt".to_string()), size: 99 };
    let r = plan_upload(Some(part), 100, "Upload.file", &existing);
    assert_eq!(r, Ok("a.txt".to_string()));
}

#[test]
fn plan_falls_back_when_no_name_declared() {
    let existing: Vec<String> = Vec::new();
    let part = FilePartInfo { filename: None, size: 10 };
    let r = plan_upload(Some(part), 100, "Upload.file", &existing);
    assert_eq!(r, Ok("Upload.file".to_string()));
}

#[test]
fn plan_sanitizes_then_resolves_collisions() {
    let existing = strings(&["Upload.file"]);
    let part = FilePartInfo { filename: Some("bad name".to_string()), size: 10 };
    let r = plan_upload(Some(part), 100, "Upload.file", &existing);
    assert_eq!(r, Ok("0-Upload.file".to_string()));
}
