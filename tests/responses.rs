use file_manager::delete::{finish_delete, plan_delete, DeletePlan, EntryKind};
use file_manager::outcome::{DeleteOutcome, UploadOutcome};
use file_manager::resolve::delete_target;

#[test]
fn upload_responses() {
    let cases = [
        (UploadOutcome::Success, 200, r#"{"code":"1","msg":"success"}"#),
        (UploadOutcome::NoFilename, 400, r#"{"code":"2","msg":"No filename provided"}"#),
        (UploadOutcome::BadPath, 400, r#"{"code":"3","msg":"require http path is /upload/**"}"#),
        (UploadOutcome::FileCreateFailed, 500, r#"{"code":"4","msg":"Could not create file"}"#),
        (UploadOutcome::DirCreateFailed, 500, r#"{"code":"5","msg":"Could not dir"}"#),
        (UploadOutcome::WriteFailed, 500, r#"{"code":"6","msg":"Error writing to file"}"#),
        (UploadOutcome::StreamFailed, 500, r#"{"code":"7","msg":"Error uploading file"}"#),
    ];
    for (o, status, body) in cases {
        assert_eq!(o.status(), status);
        assert_eq!(o.body(), body);
    }
}

#[test]
fn delete_responses() {
    assert_eq!(DeleteOutcome::Success.status(), 200);
    assert_eq!(DeleteOutcome::Success.body(), r#"{"code":"1","msg":"success"}"#);
    assert_eq!(DeleteOutcome::NotFound.status(), 404);
    assert_eq!(DeleteOutcome::NotFound.body(), r#"{"code":"9","msg":"File not found"}"#);
    assert_eq!(DeleteOutcome::DeleteFailed.status(), 500);
    assert_eq!(DeleteOutcome::DeleteFailed.body(), r#"{"code":"8","msg":"Failed to delete file"}"#);
}

#[test]
fn delete_plans() {
    assert_eq!(plan_delete(EntryKind::Missing), DeletePlan::NotFound);
    assert_eq!(plan_delete(EntryKind::File), DeletePlan::RemoveEntry);
    assert_eq!(plan_delete(EntryKind::Directory), DeletePlan::RemoveTree);
    assert_eq!(plan_delete(EntryKind::Other), DeletePlan::RemoveEntry);
}

#[test]
fn delete_missing_is_not_found() {
    assert_eq!(finish_delete(plan_delete(EntryKind::Missing), true), DeleteOutcome::NotFound);
    assert_eq!(finish_delete(plan_delete(EntryKind::Missing), false), DeleteOutcome::NotFound);
}

#[test]
fn delete_removal_failure() {
    assert_eq!(finish_delete(DeletePlan::RemoveEntry, false), DeleteOutcome::DeleteFailed);
    assert_eq!(finish_delete(DeletePlan::RemoveTree, false), DeleteOutcome::DeleteFailed);
    assert_eq!(finish_delete(DeletePlan::RemoveEntry, true), DeleteOutcome::Success);
}

#[test]
fn delete_directory_then_again() {
    assert_eq!(delete_target("./files", "archive"), Ok("./files/archive".to_string()));
    let plan = plan_delete(EntryKind::Directory);
    assert_eq!(plan, DeletePlan::RemoveTree);
    let first = finish_delete(plan, true);
    assert_eq!(first, DeleteOutcome::Success);
    assert_eq!(first.body(), r#"{"code":"1","msg":"success"}"#);
    let second = finish_delete(plan_delete(EntryKind::Missing), false);
    assert_eq!(second, DeleteOutcome::NotFound);
    assert_eq!(second.status(), 404);
    assert_eq!(second.body(), r#"{"code":"9","msg":"File not found"}"#);
}
