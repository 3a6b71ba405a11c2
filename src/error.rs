//! The failures a transfer can end in.
use vstd::prelude::*;
use crate::hashing::HashingError;

verus! {

/// Declares reqwest's error type, carried through as the cause of a
/// transport failure.
#[verifier::external_type_specification]
#[verifier::external_body]
pub struct ExReqwestError(reqwest::Error);

/// Declares std's I/O error type, carried through as the cause of a local
/// file failure.
#[verifier::external_type_specification]
#[verifier::external_body]
pub struct ExIoError(std::io::Error);

/// Every way a transfer can fail.
///
/// Downloads are written as they arrive and never unpacked, so no variant
/// stands for a failure to unpack an archive.
#[derive(Debug)]
pub enum DownloadError {
    /// The digest of the written bytes is not the expected one.
    Hashing(HashingError),
    /// The HTTP client failed.
    Http(reqwest::Error),
    /// A local file operation failed.
    Io(std::io::Error),
    /// Every attempt of the transfer failed.
    MaxRetriesExceeded { url: String, max_retries: u32 },
    /// The parent folders of the destination could not be created.
    FailedCreateParentFolders(String),
    /// A planned chunk never arrived: its fetcher used up its attempts.
    ChunkLost { index: usize },
    /// A completion named a chunk outside the plan, or one already received.
    InvalidChunkIndex { index: usize },
}

} // verus!
