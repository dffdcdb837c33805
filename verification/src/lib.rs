//! Resilient bulk file downloader core.
//!
//! Given a product identifier and a manifest describing one or more remote
//! files, the library resolves the download URLs, models a clean target
//! directory, drives each single-file transfer through a resumable,
//! retry-bounded state machine, aggregates byte-level progress across the
//! batch, and enforces all-or-nothing semantics: either every file lands
//! intact, or the partially written directory is removed.
//!
//! All network and filesystem I/O lives outside this crate; the functions
//! here take and return plain values, so every decision the downloader makes
//! is verified.

use vstd::prelude::*;

pub mod batch;
pub mod decimal;
pub mod errors;
pub mod manifest;
pub mod progress;
pub mod setting;
pub mod text;
pub mod transfer;
pub mod update_lock;
pub mod urls;

pub use batch::download_single_file;
pub use batch::prepare_target_path;
pub use batch::run_batch;
pub use batch::DirFile;
pub use batch::TargetDir;
pub use decimal::parse_file_size;
pub use decimal::u64_to_dec_string;
pub use errors::DownloadError;
pub use errors::LoginError;
pub use manifest::total_file_size;
pub use manifest::FileManifestEntry;
pub use progress::ProgressAggregator;
pub use setting::Setting;
pub use transfer::FileTransfer;
pub use transfer::TransferAction;
pub use transfer::TransferEvent;
pub use transfer::BACKOFF_SECS;
pub use transfer::MAX_RETRIES;
pub use update_lock::UpdateLock;
pub use urls::resolve_file_urls;

verus! {

} // verus!
