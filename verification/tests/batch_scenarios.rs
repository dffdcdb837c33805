use dlsite_downloader::DownloadError;
use dlsite_downloader::FileManifestEntry;
use dlsite_downloader::ProgressAggregator;
use dlsite_downloader::TargetDir;
use dlsite_downloader::TransferEvent;
use dlsite_downloader::download_single_file;
use dlsite_downloader::prepare_target_path;
use dlsite_downloader::run_batch;

fn entry(name: &str, size: &str) -> FileManifestEntry {
    FileManifestEntry { file_name: name.to_string(), file_size: size.to_string() }
}

fn delivery(bytes: &[u8]) -> Vec<TransferEvent> {
    vec![
        TransferEvent::ChunkReceived(bytes.to_vec()),
        TransferEvent::StreamEnded,
    ]
}

#[test]
fn resume_after_interruption_is_byte_identical() {
    let server: Vec<u8> = (0u8..=255).cycle().take(1000).collect();
    let k = 437;

    let mut dir = TargetDir::absent();
    prepare_target_path(&mut dir);
    let mut progress = ProgressAggregator::new(1000);
    let mut reports: Vec<(u64, u64)> = Vec::new();
    let interrupted = vec![
        TransferEvent::ChunkReceived(server[..k].to_vec()),
        TransferEvent::StreamInterrupted,
        TransferEvent::ChunkReceived(server[k..].to_vec()),
        TransferEvent::StreamEnded,
    ];
    let res = download_single_file(&mut dir, "a.bin", &interrupted, &mut progress, &mut reports);
    assert_eq!(res, Ok(()));

    let mut dir2 = TargetDir::absent();
    prepare_target_path(&mut dir2);
    let mut progress2 = ProgressAggregator::new(1000);
    let mut reports2: Vec<(u64, u64)> = Vec::new();
    let direct = delivery(&server);
    let res2 = download_single_file(&mut dir2, "a.bin", &direct, &mut progress2, &mut reports2);
    assert_eq!(res2, Ok(()));

    assert_eq!(dir.files[0].content, server, "no duplicate or missing bytes at the seam");
    assert_eq!(dir.files[0].content, dir2.files[0].content);
    assert_eq!(progress.received, progress2.received);
}

#[test]
fn exclusive_create_rejects_existing_file() {
    let mut dir = TargetDir::absent();
    prepare_target_path(&mut dir);
    let mut progress = ProgressAggregator::new(10);
    let mut reports: Vec<(u64, u64)> = Vec::new();
    let events = delivery(&[1, 2, 3]);
    assert_eq!(
        download_single_file(&mut dir, "a.bin", &events, &mut progress, &mut reports),
        Ok(())
    );
    assert_eq!(
        download_single_file(&mut dir, "a.bin", &events, &mut progress, &mut reports),
        Err(DownloadError::Filesystem)
    );
    assert_eq!(dir.files.len(), 1);
}

#[test]
fn batch_fails_and_removes_directory_on_permanent_connection_failure() {
    let files = vec![entry("a.bin", "5")];
    let always_refused = vec![
        TransferEvent::ConnectFailed,
        TransferEvent::ConnectFailed,
        TransferEvent::ConnectFailed,
        TransferEvent::ConnectFailed,
    ];
    let mut dir = TargetDir::absent();
    let mut reports: Vec<(u64, u64)> = Vec::new();
    let res = run_batch(&files, &vec![always_refused], &mut dir, &mut reports);
    assert_eq!(res, Err(DownloadError::Connection));
    assert!(!dir.exists, "the target directory must be gone after a failed batch");
    assert!(dir.files.is_empty());
}

#[test]
fn batch_with_unparsable_size_fails_before_any_download() {
    let files = vec![entry("a.bin", "not-a-number")];
    let mut dir = TargetDir::absent();
    let mut reports: Vec<(u64, u64)> = Vec::new();
    let res = run_batch(&files, &vec![vec![TransferEvent::StreamEnded]], &mut dir, &mut reports);
    assert_eq!(res, Err(DownloadError::Manifest));
    assert!(!dir.exists, "the manifest is rejected before the target path is touched");
    assert!(reports.is_empty());
}

#[test]
fn batch_with_duplicate_names_fails_with_filesystem_error() {
    let files = vec![entry("same.bin", "1"), entry("same.bin", "1")];
    let transports = vec![delivery(&[1]), delivery(&[1])];
    let mut dir = TargetDir::absent();
    let mut reports: Vec<(u64, u64)> = Vec::new();
    let res = run_batch(&files, &transports, &mut dir, &mut reports);
    assert_eq!(res, Err(DownloadError::Filesystem));
    assert!(!dir.exists);
}

#[test]
fn empty_file_batch_completes_and_reports_zero_of_zero() {
    let files = vec![entry("a.bin", "0")];
    let transports = vec![vec![TransferEvent::StreamEnded]];
    let mut dir = TargetDir::absent();
    let mut reports: Vec<(u64, u64)> = Vec::new();
    let res = run_batch(&files, &transports, &mut dir, &mut reports);
    assert_eq!(res, Ok(()));
    assert!(dir.exists);
    assert_eq!(dir.files.len(), 1);
    assert_eq!(dir.files[0].name, "a.bin");
    assert!(dir.files[0].content.is_empty());
    assert!(reports.contains(&(0, 0)), "the observer must see (0, 0) at least once");
}

#[test]
fn three_file_batch_reports_full_progress_and_lands_all_files() {
    let files = vec![
        entry("a.bin", "100"),
        entry("b.bin", "200"),
        entry("c.bin", "300"),
    ];
    let transports = vec![
        vec![
            TransferEvent::ChunkReceived(vec![1u8; 60]),
            TransferEvent::StreamInterrupted,
            TransferEvent::ChunkReceived(vec![1u8; 40]),
            TransferEvent::StreamEnded,
        ],
        delivery(&vec![2u8; 200]),
        vec![
            TransferEvent::ConnectFailed,
            TransferEvent::ChunkReceived(vec![3u8; 300]),
            TransferEvent::StreamEnded,
        ],
    ];
    let mut dir = TargetDir::absent();
    let mut reports: Vec<(u64, u64)> = Vec::new();
    let res = run_batch(&files, &transports, &mut dir, &mut reports);
    assert_eq!(res, Ok(()));
    assert_eq!(dir.files.len(), 3);
    assert_eq!(dir.files[0].content.len(), 100);
    assert_eq!(dir.files[1].content.len(), 200);
    assert_eq!(dir.files[2].content.len(), 300);
    assert_eq!(reports.first(), Some(&(0, 600)));
    assert_eq!(reports.last(), Some(&(600, 600)), "final cumulative progress must be 600");
    for pair in reports.windows(2) {
        assert!(pair[0].0 <= pair[1].0, "progress never decreases");
    }
    for report in &reports {
        assert_eq!(report.1, 600);
    }
}

#[test]
fn batch_keeps_partial_bytes_out_of_sight_after_failure() {
    let files = vec![entry("a.bin", "10"), entry("b.bin", "10")];
    let transports = vec![
        delivery(&vec![7u8; 10]),
        vec![
            TransferEvent::ChunkReceived(vec![8u8; 4]),
            TransferEvent::ConnectFailed,
            TransferEvent::ConnectFailed,
            TransferEvent::ConnectFailed,
            TransferEvent::ConnectFailed,
        ],
    ];
    let mut dir = TargetDir::absent();
    let mut reports: Vec<(u64, u64)> = Vec::new();
    let res = run_batch(&files, &transports, &mut dir, &mut reports);
    assert_eq!(res, Err(DownloadError::Connection));
    assert!(!dir.exists);
    assert_eq!(reports.last(), Some(&(14, 20)), "progress counts bytes received before the failure");
}
