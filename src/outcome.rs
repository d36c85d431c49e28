//! The fixed responses of the service: every outcome maps to one HTTP status
//! and one JSON body.
use vstd::prelude::*;

verus! {

/// Result of an upload request.
#[derive(Clone, Copy, Debug, PartialEq, Eq, Structural)]
pub enum UploadOutcome {
    Success,
    NoFilename,
    BadPath,
    DirCreateFailed,
    FileCreateFailed,
    WriteFailed,
    StreamFailed,
}

/// Result of a delete request.
#[derive(Clone, Copy, Debug, PartialEq, Eq, Structural)]
pub enum DeleteOutcome {
    Success,
    NotFound,
    DeleteFailed,
}

pub open spec fn upload_status(o: UploadOutcome) -> u16 {
    match o {
        UploadOutcome::Success => 200,
        UploadOutcome::NoFilename => 400,
        UploadOutcome::BadPath => 400,
        _ => 500,
    }
}

pub open spec fn upload_body(o: UploadOutcome) -> Seq<char> {
    match o {
        UploadOutcome::Success => r#"{"code":"1","msg":"success"}"#@,
        UploadOutcome::NoFilename => r#"{"code":"2","msg":"No filename provided"}"#@,
        UploadOutcome::BadPath => r#"{"code":"3","msg":"require http path is /upload/**"}"#@,
        UploadOutcome::FileCreateFailed => r#"{"code":"4","msg":"Could not create file"}"#@,
        UploadOutcome::DirCreateFailed => r#"{"code":"5","msg":"Could not dir"}"#@,
        UploadOutcome::WriteFailed => r#"{"code":"6","msg":"Error writing to file"}"#@,
        UploadOutcome::StreamFailed => r#"{"code":"7","msg":"Error uploading file"}"#@,
    }
}

pub open spec fn delete_status(o: DeleteOutcome) -> u16 {
    match o {
        DeleteOutcome::Success => 200,
        DeleteOutcome::NotFound => 404,
        DeleteOutcome::DeleteFailed => 500,
    }
}

pub open spec fn delete_body(o: DeleteOutcome) -> Seq<char> {
    match o {
        DeleteOutcome::Success => r#"{"code":"1","msg":"success"}"#@,
        DeleteOutcome::NotFound => r#"{"code":"9","msg":"File not found"}"#@,
        DeleteOutcome::DeleteFailed => r#"{"code":"8","msg":"Failed to delete file"}"#@,
    }
}

impl UploadOutcome {
    /// HTTP status code of the response.
    pub fn status(&self) -> (r: u16)
        ensures
            r == upload_status(*self),
    {
        match self {
            UploadOutcome::Success => 200,
            UploadOutcome::NoFilename => 400,
            UploadOutcome::BadPath => 400,
            _ => 500,
        }
    }

    /// JSON body of the response.
    pub fn body(&self) -> (r: &'static str)
        ensures
            r@ == upload_body(*self),
    {
        match self {
            UploadOutcome::Success => r#"{"code":"1","msg":"success"}"#,
            UploadOutcome::NoFilename => r#"{"code":"2","msg":"No filename provided"}"#,
            UploadOutcome::BadPath => r#"{"code":"3","msg":"require http path is /upload/**"}"#,
            UploadOutcome::FileCreateFailed => r#"{"code":"4","msg":"Could not create file"}"#,
            UploadOutcome::DirCreateFailed => r#"{"code":"5","msg":"Could not dir"}"#,
            UploadOutcome::WriteFailed => r#"{"code":"6","msg":"Error writing to file"}"#,
            UploadOutcome::StreamFailed => r#"{"code":"7","msg":"Error uploading file"}"#,
        }
    }
}

impl DeleteOutcome {
    /// HTTP status code of the response.
    pub fn status(&self) -> (r: u16)
        ensures
            r == delete_status(*self),
    {
        match self {
            DeleteOutcome::Success => 200,
            DeleteOutcome::NotFound => 404,
            DeleteOutcome::DeleteFailed => 500,
        }
    }

    /// JSON body of the response.
    pub fn body(&self) -> (r: &'static str)
        ensures
            r@ == delete_body(*self),
    {
        match self {
            DeleteOutcome::Success => r#"{"code":"1","msg":"success"}"#,
            DeleteOutcome::NotFound => r#"{"code":"9","msg":"File not found"}"#,
            DeleteOutcome::DeleteFailed => r#"{"code":"8","msg":"Failed to delete file"}"#,
        }
    }
}

} // verus!
