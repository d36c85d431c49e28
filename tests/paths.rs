use file_manager::outcome::{DeleteOutcome, UploadOutcome};
use file_manager::resolve::{
    delete_target, is_safe_filename, is_safe_relative, join_path, resolve_request_dir,
    resolve_upload_dir,
};

#[test]
fn join_adds_one_separator() {
    assert_eq!(join_path("./files", "archive"), "./files/archive");
    assert_eq!(join_path("./files/", "archive"), "./files/archive");
    assert_eq!(join_path("", "archive"), "archive");
}

#[test]
fn upload_dir_of_bare_prefix_is_root() {
    assert_eq!(resolve_upload_dir("./files", "/upload"), Ok("./files".to_string()));
    assert_eq!(resolve_upload_dir("./files", "/upload/"), Ok("./files".to_string()));
}

#[test]
fn upload_dir_nested() {
    assert_eq!(resolve_upload_dir("./files", "/upload/archive"), Ok("./files/archive".to_string()));
    assert_eq!(resolve_upload_dir("./files", "/upload/a/b/c"), Ok("./files/a/b/c".to_string()));
}

#[test]
fn upload_dir_stray_characters_after_prefix() {
    assert_eq!(resolve_upload_dir("./files", "/uploadx"), Err(UploadOutcome::BadPath));
    assert_eq!(resolve_upload_dir("./files", "/uploads/a"), Err(UploadOutcome::BadPath));
}

#[test]
fn upload_dir_refuses_escapes() {
    assert_eq!(resolve_upload_dir("./files", "/upload/../etc"), Err(UploadOutcome::BadPath));
    assert_eq!(resolve_upload_dir("./files", "/upload/a/.."), Err(UploadOutcome::BadPath));
    assert_eq!(resolve_upload_dir("./files", "/upload//etc"), Err(UploadOutcome::BadPath));
    assert_eq!(resolve_upload_dir("./files", "/upload/a..b"), Ok("./files/a..b".to_string()));
}

#[test]
fn upload_dir_other_prefix() {
    assert_eq!(resolve_upload_dir("./files", "/delete/a"), Err(UploadOutcome::BadPath));
    assert_eq!(resolve_upload_dir("./files", "/up"), Err(UploadOutcome::BadPath));
}

#[test]
fn request_dir_is_percent_decoded() {
    assert_eq!(resolve_request_dir("./files", "/upload/my%20dir"), Ok("./files/my dir".to_string()));
    assert_eq!(resolve_request_dir("./files", "/upload%2Farchive"), Ok("./files/archive".to_string()));
    assert_eq!(resolve_request_dir("./files", "/upload/%E4%B8%AD"), Ok("./files/中".to_string()));
}

#[test]
fn request_dir_bad_utf8_or_escape() {
    assert_eq!(resolve_request_dir("./files", "/upload/%FF"), Err(UploadOutcome::BadPath));
    assert_eq!(resolve_request_dir("./files", "/upload/%2E%2E/x"), Err(UploadOutcome::BadPath));
    assert_eq!(resolve_request_dir("./files", "/uploadabc"), Err(UploadOutcome::BadPath));
}

#[test]
fn safe_names_and_paths() {
    assert!(is_safe_filename("report.txt"));
    assert!(is_safe_filename("..."));
    assert!(!is_safe_filename(""));
    assert!(!is_safe_filename("."));
    assert!(!is_safe_filename(".."));
    assert!(!is_safe_filename("a/b"));
    assert!(is_safe_relative(""));
    assert!(is_safe_relative("a/b/"));
    assert!(!is_safe_relative("/a"));
    assert!(!is_safe_relative(".."));
}

#[test]
fn delete_target_joins_under_root() {
    assert_eq!(delete_target("./files", "archive"), Ok("./files/archive".to_string()));
    assert_eq!(delete_target("./files", "a/b.txt"), Ok("./files/a/b.txt".to_string()));
    assert_eq!(delete_target("./files", "../secret"), Err(DeleteOutcome::NotFound));
    assert_eq!(delete_target("./files", "/etc/passwd"), Err(DeleteOutcome::NotFound));
}
