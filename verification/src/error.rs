//! Errors of the storage layer and of the request handlers.

use vstd::prelude::*;
use vstd::string::*;

use crate::text::{decimal, decimal_text};

verus! {

/// The steps of storage work that can fail with a message of the system below.
#[derive(Debug, Clone, Copy, PartialEq, Eq, Structural)]
pub enum Step {
    Metadata,
    FileMetadata,
    PartMetadata,
    ReserveId,
    OpenRegular,
    DiskCheck,
    CreateTemp,
    CreateTarget,
    Write,
    Flush,
    Publish,
    Read,
    Seek,
    Delete,
    RenameLink,
    RenameCleanup,
    S3MultipartInit,
    S3Upload,
    S3ConcatUpload,
    S3List,
    S3Get,
    S3Read,
    S3Delete,
    S3RangeGet,
    S3RangeRead,
    RequestBody,
}

/// What a step is called in messages.
pub open spec fn step_name(step: Step) -> Seq<char> {
    match step {
        Step::Metadata => "metadata"@,
        Step::FileMetadata => "file metadata"@,
        Step::PartMetadata => "part metadata"@,
        Step::ReserveId => "reserve ID"@,
        Step::OpenRegular => "open regular file"@,
        Step::DiskCheck => "disk check"@,
        Step::CreateTemp => "create temp"@,
        Step::CreateTarget => "create target"@,
        Step::Write => "write"@,
        Step::Flush => "flush"@,
        Step::Publish => "publish"@,
        Step::Read => "read"@,
        Step::Seek => "seek"@,
        Step::Delete => "delete"@,
        Step::RenameLink => "rename link"@,
        Step::RenameCleanup => "rename cleanup"@,
        Step::S3MultipartInit => "S3 multipart init"@,
        Step::S3Upload => "S3 upload"@,
        Step::S3ConcatUpload => "S3 concat upload"@,
        Step::S3List => "S3 list"@,
        Step::S3Get => "S3 get"@,
        Step::S3Read => "S3 read"@,
        Step::S3Delete => "S3 delete"@,
        Step::S3RangeGet => "S3 range get"@,
        Step::S3RangeRead => "S3 range read"@,
        Step::RequestBody => "request body"@,
    }
}

impl Step {
    /// What the step is called in messages.
    pub fn name(self) -> (r: &'static str)
        ensures
            r@ == step_name(self),
            self is Metadata ==> r@ == "metadata"@,
            self is FileMetadata ==> r@ == "file metadata"@,
            self is PartMetadata ==> r@ == "part metadata"@,
            self is ReserveId ==> r@ == "reserve ID"@,
            self is OpenRegular ==> r@ == "open regular file"@,
            self is DiskCheck ==> r@ == "disk check"@,
            self is CreateTemp ==> r@ == "create temp"@,
            self is CreateTarget ==> r@ == "create target"@,
            self is Write ==> r@ == "write"@,
            self is Flush ==> r@ == "flush"@,
            self is Publish ==> r@ == "publish"@,
            self is Read ==> r@ == "read"@,
            self is Seek ==> r@ == "seek"@,
            self is Delete ==> r@ == "delete"@,
            self is RenameLink ==> r@ == "rename link"@,
            self is RenameCleanup ==> r@ == "rename cleanup"@,
            self is S3MultipartInit ==> r@ == "S3 multipart init"@,
            self is S3Upload ==> r@ == "S3 upload"@,
            self is S3ConcatUpload ==> r@ == "S3 concat upload"@,
            self is S3List ==> r@ == "S3 list"@,
            self is S3Get ==> r@ == "S3 get"@,
            self is S3Read ==> r@ == "S3 read"@,
            self is S3Delete ==> r@ == "S3 delete"@,
            self is S3RangeGet ==> r@ == "S3 range get"@,
            self is S3RangeRead ==> r@ == "S3 range read"@,
            self is RequestBody ==> r@ == "request body"@,
    {
        match self {
            Step::Metadata => "metadata",
            Step::FileMetadata => "file metadata",
            Step::PartMetadata => "part metadata",
            Step::ReserveId => "reserve ID",
            Step::OpenRegular => "open regular file",
            Step::DiskCheck => "disk check",
            Step::CreateTemp => "create temp",
            Step::CreateTarget => "create target",
            Step::Write => "write",
            Step::Flush => "flush",
            Step::Publish => "publish",
            Step::Read => "read",
            Step::Seek => "seek",
            Step::Delete => "delete",
            Step::RenameLink => "rename link",
            Step::RenameCleanup => "rename cleanup",
            Step::S3MultipartInit => "S3 multipart init",
            Step::S3Upload => "S3 upload",
            Step::S3ConcatUpload => "S3 concat upload",
            Step::S3List => "S3 list",
            Step::S3Get => "S3 get",
            Step::S3Read => "S3 read",
            Step::S3Delete => "S3 delete",
            Step::S3RangeGet => "S3 range get",
            Step::S3RangeRead => "S3 range read",
            Step::RequestBody => "request body",
        }
    }
}

/// Why storage work failed, where the failure has no status of its own.
#[derive(Debug, PartialEq, Eq)]
pub enum IoFailure {
    /// A step failed with the given message.
    Failed(Step, String),
    /// A step failed on the given part of a concatenation.
    FailedFor(Step, String, String),
    /// Copying the given part of a concatenation failed.
    CopyPart(String, String),
    InvalidLogicalId,
    InvalidStoragePath,
    NotRegular,
    RenameSourceNotRegular,
    PartNotRegular(String),
    /// The range from the first to the second offset does not lie within a file of the third size.
    OutOfBounds(u64, u64, u64),
    UnexpectedEof,
    Message(String),
}

/// The text of a failure.
pub open spec fn failure_text(failure: IoFailure) -> Seq<char> {
    match failure {
        IoFailure::Failed(step, e) => step_name(step) + " failed: "@ + e@,
        IoFailure::FailedFor(step, part, e) => step_name(step) + " failed for "@ + part@ + ": "@
            + e@,
        IoFailure::CopyPart(part, e) => "copy part "@ + part@ + " failed: "@ + e@,
        IoFailure::InvalidLogicalId => "invalid logical ID"@,
        IoFailure::InvalidStoragePath => "invalid storage path"@,
        IoFailure::NotRegular => "storage path is not a regular file"@,
        IoFailure::RenameSourceNotRegular => "rename source is not a regular file"@,
        IoFailure::PartNotRegular(part) => "part "@ + part@ + " is not a regular file"@,
        IoFailure::OutOfBounds(start, end, size) => "range "@ + decimal(start as nat) + "-"@
            + decimal(end as nat) + " out of bounds for "@ + decimal(size as nat) + " byte file"@,
        IoFailure::UnexpectedEof => "unexpected EOF reading range"@,
        IoFailure::Message(text) => text@,
    }
}

impl IoFailure {
    /// The text of the failure.
    pub fn message(&self) -> (r: String)
        ensures
            r@ == failure_text(*self),
            match self {
                IoFailure::Failed(step, e) => r@ == step_name(*step) + " failed: "@ + e@,
                IoFailure::FailedFor(step, part, e) => r@ == step_name(*step) + " failed for "@ + part@
                    + ": "@ + e@,
                IoFailure::CopyPart(part, e) => r@ == "copy part "@ + part@ + " failed: "@ + e@,
                IoFailure::InvalidLogicalId => r@ == "invalid logical ID"@,
                IoFailure::InvalidStoragePath => r@ == "invalid storage path"@,
                IoFailure::NotRegular => r@ == "storage path is not a regular file"@,
                IoFailure::RenameSourceNotRegular => r@ == "rename source is not a regular file"@,
                IoFailure::PartNotRegular(part) => r@ == "part "@ + part@ + " is not a regular file"@,
                IoFailure::OutOfBounds(start, end, size) => r@ == "range "@ + decimal(*start as nat)
                    + "-"@ + decimal(*end as nat) + " out of bounds for "@ + decimal(*size as nat)
                    + " byte file"@,
                IoFailure::UnexpectedEof => r@ == "unexpected EOF reading range"@,
                IoFailure::Message(text) => r@ == text@,
            },
    {
        match self {
            IoFailure::Failed(step, e) => step.name().to_owned().concat(" failed: ").concat(
                e.as_str(),
            ),
            IoFailure::FailedFor(step, part, e) => step.name().to_owned().concat(
                " failed for ",
            ).concat(part.as_str()).concat(": ").concat(e.as_str()),
            IoFailure::CopyPart(part, e) => "copy part ".to_owned().concat(part.as_str()).concat(
                " failed: ",
            ).concat(e.as_str()),
            IoFailure::InvalidLogicalId => "invalid logical ID".to_owned(),
            IoFailure::InvalidStoragePath => "invalid storage path".to_owned(),
            IoFailure::NotRegular => "storage path is not a regular file".to_owned(),
            IoFailure::RenameSourceNotRegular => "rename source is not a regular file".to_owned(),
            IoFailure::PartNotRegular(part) => "part ".to_owned().concat(part.as_str()).concat(
                " is not a regular file",
            ),
            IoFailure::OutOfBounds(start, end, size) => "range ".to_owned().concat(
                decimal_text(*start).as_str(),
            ).concat("-").concat(decimal_text(*end).as_str()).concat(" out of bounds for ").concat(
                decimal_text(*size).as_str(),
            ).concat(" byte file"),
            IoFailure::UnexpectedEof => "unexpected EOF reading range".to_owned(),
            IoFailure::Message(text) => text.clone(),
        }
    }
}

/// Errors of the storage layer.
#[derive(Debug, PartialEq, Eq)]
pub enum StorageError {
    NotFound,
    Conflict,
    Forbidden,
    InsufficientStorage,
    PayloadTooLarge,
    SizeMismatch,
    Io(IoFailure),
}

/// Why an upload is not allowed.
#[derive(Debug, PartialEq, Eq)]
pub enum BlockReason {
    /// The extension or the contents are of a kind that is blocked; the text tells which.
    Kind(String),
    /// There is nothing in it.
    Empty,
}

/// The text of a reason.
pub open spec fn reason_text(reason: BlockReason) -> Seq<char> {
    match reason {
        BlockReason::Kind(text) => text@,
        BlockReason::Empty => "Empty files are not allowed"@,
    }
}

impl BlockReason {
    /// The text of the reason.
    pub fn message(&self) -> (r: String)
        ensures
            r@ == reason_text(*self),
            self matches BlockReason::Kind(text) ==> r@ == text@,
            self is Empty ==> r@ == "Empty files are not allowed"@,
    {
        match self {
            BlockReason::Kind(text) => text.clone(),
            BlockReason::Empty => "Empty files are not allowed".to_owned(),
        }
    }
}

/// Errors that a request is answered with.
#[derive(Debug, PartialEq, Eq)]
pub enum JuicehostError {
    BadRequest,
    Forbidden,
    NotFound,
    Conflict,
    PayloadTooLarge,
    SizeMismatch,
    /// The contents or the name of an upload are not allowed.
    BlockedFileType(BlockReason),
    InternalServerError,
    ServiceUnavailable,
    InsufficientStorage,
}

/// The HTTP status of an error.
pub open spec fn error_status(error: JuicehostError) -> u16 {
    match error {
        JuicehostError::BadRequest => 400,
        JuicehostError::Forbidden => 403,
        JuicehostError::NotFound => 404,
        JuicehostError::Conflict => 409,
        JuicehostError::PayloadTooLarge => 413,
        JuicehostError::SizeMismatch => 400,
        JuicehostError::BlockedFileType(_) => 400,
        JuicehostError::InternalServerError => 500,
        JuicehostError::ServiceUnavailable => 503,
        JuicehostError::InsufficientStorage => 507,
    }
}

impl JuicehostError {
    /// The HTTP status of the error.
    pub fn status(&self) -> (r: u16)
        ensures
            r == error_status(*self),
    {
        match self {
            JuicehostError::BadRequest => 400,
            JuicehostError::Forbidden => 403,
            JuicehostError::NotFound => 404,
            JuicehostError::Conflict => 409,
            JuicehostError::PayloadTooLarge => 413,
            JuicehostError::SizeMismatch => 400,
            JuicehostError::BlockedFileType(_) => 400,
            JuicehostError::InternalServerError => 500,
            JuicehostError::ServiceUnavailable => 503,
            JuicehostError::InsufficientStorage => 507,
        }
    }
}

/// What an error is called in a reply.
pub open spec fn error_code(error: JuicehostError) -> Seq<char> {
    match error {
        JuicehostError::BadRequest => "BAD_REQUEST"@,
        JuicehostError::Forbidden => "FORBIDDEN"@,
        JuicehostError::NotFound => "NOT_FOUND"@,
        JuicehostError::Conflict => "CONFLICT"@,
        JuicehostError::PayloadTooLarge => "PAYLOAD_TOO_LARGE"@,
        JuicehostError::SizeMismatch => "SIZE_MISMATCH"@,
        JuicehostError::BlockedFileType(_) => "BLOCKED_FILE_TYPE"@,
        JuicehostError::InternalServerError => "INTERNAL_SERVER_ERROR"@,
        JuicehostError::ServiceUnavailable => "SERVICE_UNAVAILABLE"@,
        JuicehostError::InsufficientStorage => "INSUFFICIENT_STORAGE"@,
    }
}

impl JuicehostError {
    /// What the error is called in a reply.
    pub fn code(&self) -> (r: &'static str)
        ensures
            r@ == error_code(*self),
            self is BadRequest ==> r@ == "BAD_REQUEST"@,
            self is Forbidden ==> r@ == "FORBIDDEN"@,
            self is NotFound ==> r@ == "NOT_FOUND"@,
            self is Conflict ==> r@ == "CONFLICT"@,
            self is PayloadTooLarge ==> r@ == "PAYLOAD_TOO_LARGE"@,
            self is SizeMismatch ==> r@ == "SIZE_MISMATCH"@,
            self is BlockedFileType ==> r@ == "BLOCKED_FILE_TYPE"@,
            self is InternalServerError ==> r@ == "INTERNAL_SERVER_ERROR"@,
            self is ServiceUnavailable ==> r@ == "SERVICE_UNAVAILABLE"@,
            self is InsufficientStorage ==> r@ == "INSUFFICIENT_STORAGE"@,
    {
        match self {
            JuicehostError::BadRequest => "BAD_REQUEST",
            JuicehostError::Forbidden => "FORBIDDEN",
            JuicehostError::NotFound => "NOT_FOUND",
            JuicehostError::Conflict => "CONFLICT",
            JuicehostError::PayloadTooLarge => "PAYLOAD_TOO_LARGE",
            JuicehostError::SizeMismatch => "SIZE_MISMATCH",
            JuicehostError::BlockedFileType(_) => "BLOCKED_FILE_TYPE",
            JuicehostError::InternalServerError => "INTERNAL_SERVER_ERROR",
            JuicehostError::ServiceUnavailable => "SERVICE_UNAVAILABLE",
            JuicehostError::InsufficientStorage => "INSUFFICIENT_STORAGE",
        }
    }
}

/// The error that a request is answered with when storage fails.
pub open spec fn storage_answer(error: StorageError) -> JuicehostError {
    match error {
        StorageError::NotFound => JuicehostError::NotFound,
        StorageError::Conflict => JuicehostError::Conflict,
        StorageError::Forbidden => JuicehostError::Forbidden,
        StorageError::InsufficientStorage => JuicehostError::InsufficientStorage,
        StorageError::PayloadTooLarge => JuicehostError::PayloadTooLarge,
        StorageError::SizeMismatch => JuicehostError::SizeMismatch,
        StorageError::Io(_) => JuicehostError::InternalServerError,
    }
}

impl From<StorageError> for JuicehostError {
    fn from(error: StorageError) -> (r: JuicehostError) {
        match error {
            StorageError::NotFound => JuicehostError::NotFound,
            StorageError::Conflict => JuicehostError::Conflict,
            StorageError::Forbidden => JuicehostError::Forbidden,
            StorageError::InsufficientStorage => JuicehostError::InsufficientStorage,
            StorageError::PayloadTooLarge => JuicehostError::PayloadTooLarge,
            StorageError::SizeMismatch => JuicehostError::SizeMismatch,
            StorageError::Io(_) => JuicehostError::InternalServerError,
        }
    }
}

impl vstd::std_specs::convert::FromSpecImpl<StorageError> for JuicehostError {
    open spec fn obeys_from_spec() -> bool {
        true
    }

    open spec fn from_spec(error: StorageError) -> JuicehostError {
        storage_answer(error)
    }
}

/// An error of the file system: what happened, and its message.
#[derive(Debug, PartialEq, Eq)]
pub enum IoError {
    NotFound(String),
    AlreadyExists(String),
    Other(String),
}

impl IoError {
    pub open spec fn text(self) -> String {
        match self {
            IoError::NotFound(e) => e,
            IoError::AlreadyExists(e) => e,
            IoError::Other(e) => e,
        }
    }

    /// The message alone.
    pub fn into_text(self) -> (r: String)
        ensures
            r == self.text(),
    {
        match self {
            IoError::NotFound(e) => e,
            IoError::AlreadyExists(e) => e,
            IoError::Other(e) => e,
        }
    }
}

/// The failure of a step that must not find its target in place.
pub open spec fn conflict_or(step: Step, error: IoError) -> StorageError {
    match error {
        IoError::AlreadyExists(_) => StorageError::Conflict,
        _ => StorageError::Io(IoFailure::Failed(step, error.text())),
    }
}

/// The failure of a step that must find its target in place.
pub open spec fn missing_or(step: Step, error: IoError) -> StorageError {
    match error {
        IoError::NotFound(_) => StorageError::NotFound,
        _ => StorageError::Io(IoFailure::Failed(step, error.text())),
    }
}

/// The failure of a step that must not find its target in place.
pub fn as_conflict(step: Step, error: IoError) -> (r: StorageError)
    ensures
        r == conflict_or(step, error),
{
    match error {
        IoError::AlreadyExists(_) => StorageError::Conflict,
        IoError::NotFound(e) => StorageError::Io(IoFailure::Failed(step, e)),
        IoError::Other(e) => StorageError::Io(IoFailure::Failed(step, e)),
    }
}

/// The failure of a step that must find its target in place.
pub fn as_missing(step: Step, error: IoError) -> (r: StorageError)
    ensures
        r == missing_or(step, error),
{
    match error {
        IoError::NotFound(_) => StorageError::NotFound,
        IoError::AlreadyExists(e) => StorageError::Io(IoFailure::Failed(step, e)),
        IoError::Other(e) => StorageError::Io(IoFailure::Failed(step, e)),
    }
}

/// What storage says is told to the client as it is; only what failed below the storage is hidden
/// behind an internal error. Different errors of the storage get different answers.
pub proof fn storage_errors_are_told(a: StorageError, b: StorageError)
    ensures
        a is NotFound ==> error_status(storage_answer(a)) == 404,
        a is Conflict ==> error_status(storage_answer(a)) == 409,
        a is Forbidden ==> error_status(storage_answer(a)) == 403,
        a is InsufficientStorage ==> error_status(storage_answer(a)) == 507,
        a is PayloadTooLarge ==> error_status(storage_answer(a)) == 413,
        a is SizeMismatch ==> storage_answer(a) is SizeMismatch && error_status(storage_answer(a))
            == 400,
        a is Io ==> error_status(storage_answer(a)) == 500,
        storage_answer(a) == storage_answer(b) ==> a == b || (a is Io && b is Io),
{
}

/// A request that is wrong is answered with a status below 500, a host that cannot with one from 500 on.
pub proof fn status_tells_whose_fault_it_is(error: JuicehostError)
    ensures
        error_status(error) >= 500 <==> (error is InternalServerError || error is ServiceUnavailable
            || error is InsufficientStorage),
        400 <= error_status(error) < 600,
        error is BadRequest || error is SizeMismatch || error is BlockedFileType ==> error_status(
            error,
        ) == 400,
        error is Forbidden ==> error_status(error) == 403,
        error is NotFound ==> error_status(error) == 404,
        error is Conflict ==> error_status(error) == 409,
        error is PayloadTooLarge ==> error_status(error) == 413,
        error is InternalServerError ==> error_status(error) == 500,
        error is ServiceUnavailable ==> error_status(error) == 503,
        error is InsufficientStorage ==> error_status(error) == 507,
{
}

/// An error of the file system is a conflict exactly where the target is in place, and missing exactly
/// where it is not; any other keeps its message and names the step.
pub proof fn file_system_errors_are_sorted(step: Step, error: IoError)
    ensures
        conflict_or(step, error) is Conflict <==> error is AlreadyExists,
        missing_or(step, error) is NotFound <==> error is NotFound,
        !(error is AlreadyExists) ==> conflict_or(step, error) == StorageError::Io(
            IoFailure::Failed(step, error.text()),
        ),
        !(error is NotFound) ==> missing_or(step, error) == StorageError::Io(
            IoFailure::Failed(step, error.text()),
        ),
        match error {
            IoError::NotFound(e) => error.text() == e,
            IoError::AlreadyExists(e) => error.text() == e,
            IoError::Other(e) => error.text() == e,
        },
{
}

} // verus!
