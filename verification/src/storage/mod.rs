//! Disk handling and S3-compatible storage.

pub mod capability;
pub mod content;
pub mod local;
pub mod local_disk;
pub mod local_ops;
pub mod local_write;
pub mod names;
pub mod rename_disk;
pub mod s3;
pub mod s3_objects;
pub mod s3_race;
pub mod s3_write;
pub mod tables;

use vstd::prelude::*;

verus! {

/// Metadata about a stored file, used for ETag generation and responses.
#[derive(Debug, Clone, PartialEq, Eq)]
pub struct FileMetadata {
    /// Content length in bytes.
    pub size: u64,
    /// ETag value (backend-specific format).
    pub etag: String,
    /// File extension (e.g. "png", "bin").
    pub extension: String,
}

impl View for FileMetadata {
    type V = (u64, Seq<char>, Seq<char>);

    open spec fn view(&self) -> (u64, Seq<char>, Seq<char>) {
        (self.size, self.etag@, self.extension@)
    }
}

/// Response from a storage get operation.
#[derive(Debug, Clone, PartialEq, Eq)]
pub struct FileData {
    /// The file contents.
    pub data: Vec<u8>,
    /// File metadata including ETag.
    pub meta: FileMetadata,
}

/// Storage metrics for health/info endpoints.
#[derive(Debug, Clone, Copy, PartialEq, Eq, Structural)]
pub struct StorageMetrics {
    /// Total disk capacity in bytes (0 for S3).
    pub total_bytes: u64,
    /// Bytes used on disk (0 for S3).
    pub used_bytes: u64,
    /// Available free bytes (u64::MAX for S3).
    pub free_bytes: u64,
    /// Minimum free bytes required before rejecting writes.
    pub min_free_bytes: u64,
    /// True when free space is below the minimum threshold.
    pub out_of_space: bool,
}

} // verus!
