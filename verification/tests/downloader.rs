use dlsite_downloader::DirFile;
use dlsite_downloader::DownloadError;
use dlsite_downloader::FileManifestEntry;
use dlsite_downloader::FileTransfer;
use dlsite_downloader::ProgressAggregator;
use dlsite_downloader::Setting;
use dlsite_downloader::TargetDir;
use dlsite_downloader::TransferAction;
use dlsite_downloader::TransferEvent;
use dlsite_downloader::UpdateLock;
use dlsite_downloader::parse_file_size;
use dlsite_downloader::prepare_target_path;
use dlsite_downloader::resolve_file_urls;
use dlsite_downloader::total_file_size;
use dlsite_downloader::u64_to_dec_string;
use dlsite_downloader::BACKOFF_SECS;
use dlsite_downloader::MAX_RETRIES;

fn entry(name: &str, size: &str) -> FileManifestEntry {
    FileManifestEntry { file_name: name.to_string(), file_size: size.to_string() }
}

#[test]
fn resolve_zero_files_is_empty() {
    let urls = resolve_file_urls("RJ123456", 0);
    assert!(urls.is_empty());
}

#[test]
fn resolve_single_file_has_no_index() {
    let urls = resolve_file_urls("RJ123456", 1);
    assert_eq!(urls.len(), 1);
    assert_eq!(
        urls[0],
        "https://www.dlsite.com/maniax/download/=/product_id/RJ123456.html"
    );
}

#[test]
fn resolve_multi_file_uses_ascending_one_based_indices() {
    let urls = resolve_file_urls("RJ000001", 3);
    assert_eq!(urls.len(), 3);
    for (i, url) in urls.iter().enumerate() {
        assert_eq!(
            url,
            &format!(
                "https://www.dlsite.com/maniax/download/=/number/{}/product_id/RJ000001.html",
                i + 1
            )
        );
    }
}

#[test]
fn resolve_large_count_has_correct_length() {
    let urls = resolve_file_urls("X", 12);
    assert_eq!(urls.len(), 12);
    assert!(urls[9].contains("/number/10/"));
}

#[test]
fn dec_string_renders_exactly() {
    assert_eq!(u64_to_dec_string(0), "0");
    assert_eq!(u64_to_dec_string(7), "7");
    assert_eq!(u64_to_dec_string(10), "10");
    assert_eq!(u64_to_dec_string(12345), "12345");
    assert_eq!(u64_to_dec_string(u64::MAX), "18446744073709551615");
}

#[test]
fn parse_file_size_accepts_decimal_digits() {
    assert_eq!(parse_file_size("0"), Some(0));
    assert_eq!(parse_file_size("007"), Some(7));
    assert_eq!(parse_file_size("4294967296"), Some(4294967296));
    assert_eq!(parse_file_size("18446744073709551615"), Some(u64::MAX));
}

#[test]
fn parse_file_size_rejects_bad_input() {
    assert_eq!(parse_file_size(""), None);
    assert_eq!(parse_file_size("12a"), None);
    assert_eq!(parse_file_size("-1"), None);
    assert_eq!(parse_file_size(" 1"), None);
    assert_eq!(parse_file_size("18446744073709551616"), None);
}

#[test]
fn total_file_size_sums_entries() {
    let files = vec![entry("a", "100"), entry("b", "200"), entry("c", "300")];
    assert_eq!(total_file_size(&files), Ok(600));
}

#[test]
fn total_file_size_rejects_unparsable_entry() {
    let files = vec![entry("a", "100"), entry("b", "2x0")];
    assert_eq!(total_file_size(&files), Err(DownloadError::Manifest));
}

#[test]
fn total_file_size_rejects_overflowing_sum() {
    let files = vec![
        entry("a", "18446744073709551615"),
        entry("b", "1"),
    ];
    assert_eq!(total_file_size(&files), Err(DownloadError::Manifest));
}

#[test]
fn progress_is_monotone_and_reports_cumulative_totals() {
    let mut progress = ProgressAggregator::new(600);
    let mut reports: Vec<(u64, u64)> = Vec::new();
    progress.record(100, &mut reports);
    progress.record(0, &mut reports);
    progress.record(250, &mut reports);
    assert_eq!(reports, vec![(100, 600), (100, 600), (350, 600)]);
    for pair in reports.windows(2) {
        assert!(pair[0].0 <= pair[1].0);
    }
}

#[test]
fn transfer_begins_with_request_at_offset_zero() {
    let (t, action) = FileTransfer::begin();
    assert_eq!(action, TransferAction::Request { offset: 0, backoff_secs: 0 });
    assert!(t.written.is_empty());
    assert_eq!(t.retries, 0);
}

#[test]
fn transfer_chunk_appends_and_keeps_reading() {
    let (mut t, _) = FileTransfer::begin();
    let action = t.step(&TransferEvent::ChunkReceived(vec![1, 2, 3]));
    assert_eq!(action, TransferAction::KeepReading);
    assert_eq!(t.written, vec![1, 2, 3]);
    assert_eq!(t.retries, 0);
}

#[test]
fn transfer_interruption_resumes_from_written_offset_without_backoff() {
    let (mut t, _) = FileTransfer::begin();
    t.step(&TransferEvent::ChunkReceived(vec![9; 42]));
    let action = t.step(&TransferEvent::StreamInterrupted);
    assert_eq!(action, TransferAction::Request { offset: 42, backoff_secs: 0 });
    assert_eq!(t.retries, 0, "a mid-stream disconnect must not consume the retry budget");
}

#[test]
fn transfer_connect_failures_exhaust_retry_budget() {
    let (mut t, _) = FileTransfer::begin();
    for attempt in 0..MAX_RETRIES {
        let action = t.step(&TransferEvent::ConnectFailed);
        assert_eq!(
            action,
            TransferAction::Request { offset: 0, backoff_secs: BACKOFF_SECS }
        );
        assert_eq!(t.retries, attempt + 1);
    }
    let action = t.step(&TransferEvent::ConnectFailed);
    assert_eq!(action, TransferAction::Abort(DownloadError::Connection));
}

#[test]
fn transfer_stream_end_finishes() {
    let (mut t, _) = FileTransfer::begin();
    t.step(&TransferEvent::ChunkReceived(vec![5]));
    let action = t.step(&TransferEvent::StreamEnded);
    assert_eq!(action, TransferAction::Finish);
    assert_eq!(t.written, vec![5]);
}

#[test]
fn prepare_target_path_is_idempotent() {
    let mut dir = TargetDir::absent();
    prepare_target_path(&mut dir);
    assert!(dir.exists);
    assert!(dir.files.is_empty());
    dir.files.push(DirFile { name: "stale.bin".to_string(), content: vec![1, 2, 3] });
    prepare_target_path(&mut dir);
    assert!(dir.exists);
    assert!(dir.files.is_empty(), "a second preparation must leave an empty directory too");
}

#[test]
fn setting_defaults_when_no_row_exists() {
    let s = Setting::get(None);
    assert_eq!(s.download_root_dir, None);
    let s = Setting::get(Some(Some("/downloads".to_string())));
    assert_eq!(s.download_root_dir, Some("/downloads".to_string()));
    let s = Setting::get(Some(None));
    assert_eq!(s.download_root_dir, None);
}

#[test]
fn setting_ddl_names_the_settings_table() {
    let ddl = Setting::get_ddl();
    assert!(ddl.contains("CREATE TABLE IF NOT EXISTS settings"));
    assert!(ddl.contains("download_root_dir TEXT"));
}

#[test]
fn update_lock_is_mutually_exclusive() {
    let mut lock = UpdateLock::new();
    assert!(lock.try_acquire());
    assert!(!lock.try_acquire(), "a second catalog sync must not start while one runs");
    lock.release();
    assert!(lock.try_acquire());
    lock.release();
}
