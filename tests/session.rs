use file_manager::outcome::UploadOutcome;
use file_manager::upload::{Phase, UploadAction, UploadEvent, UploadSession};

fn step(s: &mut UploadSession, ev: UploadEvent) -> UploadAction {
    assert!(s.accepts(&ev));
    s.step(ev)
}

fn field(name: &str) -> UploadEvent {
    UploadEvent::FieldStarted { filename: Some(name.to_string()) }
}

fn listing(v: &[&str]) -> UploadEvent {
    UploadEvent::DirReady { names: v.iter().map(|s| s.to_string()).collect() }
}

fn expect_respond(a: UploadAction, o: UploadOutcome) {
    match a {
        UploadAction::Respond { outcome } => assert_eq!(outcome, o),
        other => panic!("expected a response, got {:?}", other),
    }
}

fn expect_create(a: UploadAction, want: &str) {
    match a {
        UploadAction::CreateFile { path } => assert_eq!(path, want),
        other => panic!("expected a file creation, got {:?}", other),
    }
}

fn expect_prepare(a: UploadAction, want: &str) {
    match a {
        UploadAction::PrepareDir { dir } => assert_eq!(dir, want),
        other => panic!("expected a directory, got {:?}", other),
    }
}

/// Runs one field with the given chunks into a directory listing `existing`;
/// returns the created path and the bytes written.
fn upload_one(path: &str, name: &str, existing: &[&str], chunks: &[&[u8]]) -> (String, Vec<u8>) {
    let mut s = UploadSession::new("./files", path);
    assert_eq!(s.phase(), Phase::AwaitField);
    expect_prepare(step(&mut s, field(name)), "./files/archive");
    let created = match step(&mut s, listing(existing)) {
        UploadAction::CreateFile { path } => path,
        other => panic!("expected a file creation, got {:?}", other),
    };
    assert!(matches!(step(&mut s, UploadEvent::FileCreated), UploadAction::NextChunk));
    let mut written = Vec::new();
    for c in chunks {
        match step(&mut s, UploadEvent::ChunkReceived { data: c.to_vec() }) {
            UploadAction::WriteChunk { data } => written.extend(data),
            other => panic!("expected a write, got {:?}", other),
        }
        assert!(matches!(step(&mut s, UploadEvent::ChunkWritten), UploadAction::NextChunk));
    }
    assert!(matches!(step(&mut s, UploadEvent::FieldFinished), UploadAction::NextField));
    expect_respond(step(&mut s, UploadEvent::NoMoreFields), UploadOutcome::Success);
    assert_eq!(s.phase(), Phase::Finished);
    (created, written)
}

#[test]
fn upload_report_into_archive() {
    let (path, data) = upload_one("/upload/archive", "report.txt", &[], &[b"hello"]);
    assert_eq!(path, "./files/archive/report.txt");
    assert_eq!(data, b"hello".to_vec());
    assert_eq!(UploadOutcome::Success.body(), r#"{"code":"1","msg":"success"}"#);
}

#[test]
fn upload_report_again_gets_suffix() {
    let (path, data) = upload_one("/upload/archive", "report.txt", &["report.txt"], &[b"hello"]);
    assert_eq!(path, "./files/archive/report-1.txt");
    assert_eq!(data, b"hello".to_vec());
}

#[test]
fn upload_third_time_gets_two() {
    let (path, _) =
        upload_one("/upload/archive", "report.txt", &["report.txt", "report-1.txt"], &[b"x"]);
    assert_eq!(path, "./files/archive/report-2.txt");
}

#[test]
fn upload_chunks_in_order() {
    let (_, data) = upload_one("/upload/archive", "a.bin", &[], &[b"ab", b"", b"cde", &[0, 255]]);
    assert_eq!(data, vec![b'a', b'b', b'c', b'd', b'e', 0, 255]);
}

#[test]
fn upload_to_root() {
    let mut s = UploadSession::new("./files", "/upload");
    expect_prepare(step(&mut s, field("r.txt")), "./files");
    expect_create(step(&mut s, listing(&[])), "./files/r.txt");
}

#[test]
fn upload_missing_filename() {
    let mut s = UploadSession::new("./files", "/upload/archive");
    expect_respond(step(&mut s, UploadEvent::FieldStarted { filename: None }), UploadOutcome::NoFilename);
    assert_eq!(s.phase(), Phase::Finished);
    let mut s = UploadSession::new("./files", "/upload/archive");
    expect_respond(step(&mut s, field("")), UploadOutcome::NoFilename);
    assert!(!s.accepts(&UploadEvent::FileCreated));
}

#[test]
fn upload_missing_filename_before_bad_path() {
    let mut s = UploadSession::new("./files", "/uploadjunk");
    expect_respond(step(&mut s, field("")), UploadOutcome::NoFilename);
}

#[test]
fn upload_bad_path() {
    let mut s = UploadSession::new("./files", "/uploadjunk");
    expect_respond(step(&mut s, field("report.txt")), UploadOutcome::BadPath);
    let mut s = UploadSession::new("./files", "/upload/../../etc");
    expect_respond(step(&mut s, field("report.txt")), UploadOutcome::BadPath);
}

#[test]
fn upload_unsafe_filename() {
    let mut s = UploadSession::new("./files", "/upload/archive");
    expect_respond(step(&mut s, field("../evil")), UploadOutcome::BadPath);
}

#[test]
fn upload_without_fields_succeeds() {
    let mut s = UploadSession::new("./files", "/uploadjunk");
    expect_respond(step(&mut s, UploadEvent::NoMoreFields), UploadOutcome::Success);
}

#[test]
fn upload_dir_failure() {
    let mut s = UploadSession::new("./files", "/upload/archive");
    expect_prepare(step(&mut s, field("r.txt")), "./files/archive");
    expect_respond(step(&mut s, UploadEvent::DirFailed), UploadOutcome::DirCreateFailed);
}

#[test]
fn upload_create_failure() {
    let mut s = UploadSession::new("./files", "/upload/archive");
    step(&mut s, field("r.txt"));
    expect_create(step(&mut s, listing(&[])), "./files/archive/r.txt");
    expect_respond(step(&mut s, UploadEvent::CreateFailed), UploadOutcome::FileCreateFailed);
}

#[test]
fn upload_write_failure_removes_file() {
    let mut s = UploadSession::new("./files", "/upload/archive");
    step(&mut s, field("r.txt"));
    step(&mut s, listing(&["r.txt"]));
    step(&mut s, UploadEvent::FileCreated);
    step(&mut s, UploadEvent::ChunkReceived { data: vec![1, 2, 3] });
    match step(&mut s, UploadEvent::WriteFailed) {
        UploadAction::RemoveFile { path } => assert_eq!(path, "./files/archive/r-1.txt"),
        other => panic!("expected a removal, got {:?}", other),
    }
    expect_respond(step(&mut s, UploadEvent::FileRemoved), UploadOutcome::WriteFailed);
}

#[test]
fn upload_stream_failure_removes_file() {
    let mut s = UploadSession::new("./files", "/upload/archive");
    step(&mut s, field("r.txt"));
    step(&mut s, listing(&[]));
    step(&mut s, UploadEvent::FileCreated);
    match step(&mut s, UploadEvent::ChunkFailed) {
        UploadAction::RemoveFile { path } => assert_eq!(path, "./files/archive/r.txt"),
        other => panic!("expected a removal, got {:?}", other),
    }
    expect_respond(step(&mut s, UploadEvent::FileRemoved), UploadOutcome::StreamFailed);
}

#[test]
fn upload_second_field_without_name() {
    let mut s = UploadSession::new("./files", "/upload/archive");
    step(&mut s, field("a.txt"));
    step(&mut s, listing(&[]));
    step(&mut s, UploadEvent::FileCreated);
    assert!(matches!(step(&mut s, UploadEvent::FieldFinished), UploadAction::NextField));
    expect_respond(step(&mut s, UploadEvent::FieldStarted { filename: None }), UploadOutcome::NoFilename);
}

#[test]
fn upload_percent_encoded_path() {
    let mut s = UploadSession::new("./files", "/upload/my%20docs");
    expect_prepare(step(&mut s, field("r.txt")), "./files/my docs");
}

#[test]
fn session_rejects_out_of_order_event() {
    let s = UploadSession::new("./files", "/upload");
    assert!(!s.accepts(&UploadEvent::ChunkWritten));
    assert!(s.accepts(&UploadEvent::NoMoreFields));
}
