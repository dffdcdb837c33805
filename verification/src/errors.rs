//! Error taxonomy of the downloader core.

use vstd::prelude::*;

verus! {

/// Why a download (a single file, or the whole batch) failed.
#[derive(Clone, Copy, Debug, PartialEq, Eq, Structural)]
pub enum DownloadError {
    /// The target directory could not be prepared, or an output file could
    /// not be created (for example because a file of that name already
    /// exists). Fatal to the batch; never retried.
    Filesystem,
    /// Establishing a request failed more often than the retry budget allows.
    /// Fatal to the file, and therefore to the batch.
    Connection,
    /// A manifest entry's file size does not parse as an unsigned decimal
    /// integer, or the sizes do not sum within a 64-bit counter. Rejected
    /// before any download begins.
    Manifest,
}

/// Why a login attempt failed.
#[derive(Clone, Debug, PartialEq, Eq)]
pub enum LoginError {
    /// The service rejected the supplied credentials.
    WrongCredentials,
    /// Any other failure, carrying a description.
    Other(String),
}

} // verus!
