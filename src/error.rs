//! Errors of the packaging pipeline, each with its structured fields.
use vstd::prelude::*;

verus! {

#[derive(Debug, Clone)]
pub enum PackError {
    NoBuildSystem(String),
    BuildFailed(String),
    UberjarNotFound(String),
    JdkDownload(String),
    ChecksumMismatch { expected: String, actual: String },
    JdepsFailed(String),
    JlinkFailed(String),
    CacheLockTimeout { version: u8, target: String },
    Io(String),
    Http(String),
    Json(String),
    Zip(String),
    ShrinkFailed(String),
    AnalyzeFailed(String),
    CracNotSupported,
    CracCheckpointFailed(String),
    AppcdsGenerationFailed(String),
    InvalidProfile(String),
    InvalidTarget(String),
    GradleSubprojectNotFound(String),
    NoApplicationSubproject,
    MultipleApplicationSubprojects(Vec<String>),
    JavaVersionMismatch { required: u8, configured: u8, class_version: u16, class_file: String },
}

} // verus!
