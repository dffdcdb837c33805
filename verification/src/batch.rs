//! The target directory model and the batch orchestrator.
//!
//! A batch downloads every file of one product's manifest into a freshly
//! prepared directory, aggregating progress across the files, and is
//! all-or-nothing: if any single file fails, the whole directory is removed
//! and the batch fails with the originating error.

use crate::errors::DownloadError;
use crate::manifest::entry_size;
use crate::manifest::manifest_wf;
use crate::manifest::total_file_size;
use crate::manifest::total_size_spec;
use crate::manifest::FileManifestEntry;
use crate::progress::ProgressAggregator;
use crate::text::str_eq;
use crate::transfer::run_chunks;
use crate::transfer::run_result;
use crate::transfer::run_written;
use crate::transfer::FileTransfer;
use crate::transfer::TransferAction;
use crate::transfer::TransferEvent;
use vstd::prelude::*;

verus! {

/// One file inside the modelled target directory.
#[derive(Clone, Debug)]
pub struct DirFile {
    pub name: String,
    pub content: Vec<u8>,
}

/// The target directory `base_dir/product_id` as the downloader observes it:
/// whether the path exists, and which files it holds. The caller mirrors
/// every change made here onto the real filesystem.
#[derive(Clone, Debug)]
pub struct TargetDir {
    pub exists: bool,
    pub files: Vec<DirFile>,
}

/// Whether the directory holds a file of the given name.
pub open spec fn has_file_named(d: TargetDir, name: Seq<char>) -> bool {
    exists|i: int| 0 <= i < d.files@.len() && #[trigger] d.files@[i].name@ == name
}

/// The state `prepare_target_path` leaves behind: the directory exists and
/// holds nothing.
pub open spec fn prepared(d: TargetDir) -> bool {
    d.exists && d.files@ == Seq::<DirFile>::empty()
}

impl TargetDir {
    /// The target path before anything was created there.
    pub fn absent() -> (r: TargetDir)
        ensures
            !r.exists,
            r.files@ == Seq::<DirFile>::empty(),
    {
        TargetDir { exists: false, files: Vec::new() }
    }
}

/// Ensures a clean, empty directory for the product's files: stale prior
/// contents, if any, are destroyed, and the directory then exists empty.
pub fn prepare_target_path(dir: &mut TargetDir)
    ensures
        prepared(*final(dir)),
        final(dir).exists,
        final(dir).files@ == Seq::<DirFile>::empty(),
{
    dir.exists = true;
    dir.files = Vec::new();
}

/// Preparing the target path is idempotent: whatever a first preparation
/// left behind — even after files were written into the directory — a second
/// preparation observes and produces the very same state, an existing empty
/// directory.
pub proof fn lemma_prepare_idempotent(after_once: TargetDir, after_twice: TargetDir)
    requires
        prepared(after_once),
        prepared(after_twice),
    ensures
        after_once.exists == after_twice.exists,
        after_once.files@ == after_twice.files@,
        after_once.files@.len() == 0,
{
}

/// Streams one remote file into the target directory, driving the transfer
/// state machine over the transport's events: the destination file is
/// created exclusively (failing if the name already exists), every received
/// chunk is appended to it and recorded with the batch's progress
/// aggregator, and the transfer resolves as the machine decides.
pub fn download_single_file(
    dir: &mut TargetDir,
    file_name: &str,
    events: &Vec<TransferEvent>,
    progress: &mut ProgressAggregator,
    reports: &mut Vec<(u64, u64)>,
) -> (r: Result<(), DownloadError>)
    requires
        run_result(0, events@) is Some,
        old(dir).exists && !has_file_named(*old(dir), file_name@) ==> old(progress).received
            + run_written(Seq::empty(), 0, events@).len() <= u64::MAX,
    ensures
        !(old(dir).exists && !has_file_named(*old(dir), file_name@)) ==> r == Err::<
            (),
            DownloadError,
        >(DownloadError::Filesystem) && *final(dir) == *old(dir) && *final(progress)
            == *old(progress) && final(reports)@ == old(reports)@,
        old(dir).exists && !has_file_named(*old(dir), file_name@) ==> {
            &&& r == run_result(0, events@)->0
            &&& final(dir).exists
            &&& final(dir).files@.len() == old(dir).files@.len() + 1
            &&& final(dir).files@.take(old(dir).files@.len() as int) == old(dir).files@
            &&& final(dir).files@.last().name@ == file_name@
            &&& final(dir).files@.last().content@ == run_written(Seq::empty(), 0, events@)
            &&& final(progress).received == old(progress).received + run_written(
                Seq::empty(),
                0,
                events@,
            ).len()
            &&& final(progress).total == old(progress).total
            &&& final(reports)@.len() == old(reports)@.len() + run_chunks(0, events@).len()
            &&& final(reports)@.take(old(reports)@.len() as int) == old(reports)@
            &&& (forall|j: int|
                old(reports)@.len() <= j < final(reports)@.len()
                    ==> (#[trigger] final(reports)@[j]).1 == old(progress).total && old(
                    progress,
                ).received <= final(reports)@[j].0 <= final(progress).received)
            &&& (forall|j: int|
                old(reports)@.len() <= j < final(reports)@.len() - 1
                    ==> (#[trigger] final(reports)@[j]).0 <= final(reports)@[j + 1].0)
            &&& (old(reports)@.len() > 0 && old(reports)@.last().0 == old(progress).received
                ==> final(reports)@.len() > 0 && final(reports)@.last().0
                == final(progress).received)
        },
{
    if !dir.exists {
        return Err(DownloadError::Filesystem);
    }
    let mut i: usize = 0;
    while i < dir.files.len()
        invariant
            0 <= i <= dir.files@.len(),
            forall|k: int| 0 <= k < i ==> #[trigger] dir.files@[k].name@ != file_name@,
        decreases dir.files@.len() - i,
    {
        if str_eq(dir.files[i].name.as_str(), file_name) {
            assert(has_file_named(*dir, file_name@));
            return Err(DownloadError::Filesystem);
        }
        i = i + 1;
    }
    assert(*dir == *old(dir));
    assert(!has_file_named(*old(dir), file_name@));

    let (mut transfer, _action) = FileTransfer::begin();
    let mut idx: usize = 0;
    let mut done: Option<Result<(), DownloadError>> = None;
    proof {
        assert(events@.skip(0) =~= events@);
    }
    while idx < events.len() && done.is_none()
        invariant
            0 <= idx <= events@.len(),
            run_result(0, events@) is Some,
            old(progress).received + run_written(Seq::empty(), 0, events@).len() <= u64::MAX,
            progress.total == old(progress).total,
            progress.received == old(progress).received + transfer.written@.len(),
            done is None ==> run_written(transfer.written@, transfer.retries as int, events@.skip(idx as int))
                == run_written(Seq::empty(), 0, events@),
            done is None ==> run_result(transfer.retries as int, events@.skip(idx as int))
                == run_result(0, events@),
            done is None ==> reports@.len() == old(reports)@.len() + run_chunks(0, events@).len()
                - run_chunks(transfer.retries as int, events@.skip(idx as int)).len(),
            done matches Some(o) ==> Some(o) == run_result(0, events@) && transfer.written@
                == run_written(Seq::empty(), 0, events@) && reports@.len() == old(reports)@.len()
                + run_chunks(0, events@).len(),
            reports@.len() >= old(reports)@.len(),
            reports@.take(old(reports)@.len() as int) == old(reports)@,
            forall|j: int|
                old(reports)@.len() <= j < reports@.len() ==> (#[trigger] reports@[j]).1 == old(
                    progress,
                ).total && old(progress).received <= reports@[j].0 <= progress.received,
            forall|j: int|
                old(reports)@.len() <= j < reports@.len() - 1 ==> (#[trigger] reports@[j]).0
                    <= reports@[j + 1].0,
            reports@.len() > old(reports)@.len() ==> reports@.last().0 == progress.received,
            old(reports)@.len() > 0 && old(reports)@.last().0 == old(progress).received
                ==> reports@.len() > 0 && reports@.last().0 == progress.received,
        decreases events@.len() - idx,
    {
        proof {
            assert(events@.skip(idx as int)[0] == events@[idx as int]);
            assert(events@.skip(idx as int).drop_first() =~= events@.skip(idx + 1));
        }
        let ghost pre_written = transfer.written@;
        let ghost pre_retries = transfer.retries as int;
        let event = &events[idx];
        let delta: usize = match event {
            TransferEvent::ChunkReceived(c) => c.len(),
            _ => 0,
        };
        let action = transfer.step(event);
        match event {
            TransferEvent::ChunkReceived(c) => {
                proof {
                    crate::transfer::lemma_run_written_grows(
                        transfer.written@,
                        pre_retries,
                        events@.skip(idx + 1),
                    );
                }
                let ghost pre_reports = reports@;
                progress.record(delta as u64, reports);
                proof {
                    let k = old(reports)@.len() as int;
                    assert forall|j: int| 0 <= j < k implies reports@[j] == old(reports)@[j] by {
                        assert(pre_reports.take(k)[j] == pre_reports[j]);
                        assert(reports@[j] == pre_reports[j]);
                    }
                    assert(reports@.take(k) =~= old(reports)@);
                }
            },
            _ => {},
        }
        match action {
            TransferAction::Finish => {
                done = Some(Ok(()));
            },
            TransferAction::Abort(e) => {
                done = Some(Err(e));
            },
            _ => {},
        }
        idx = idx + 1;
    }
    let outcome = match done {
        Some(o) => o,
        None => {
            // Unreachable: the precondition guarantees the events resolve
            // the transfer before they run out.
            proof {
                assert(idx == events@.len());
                assert(events@.skip(idx as int) =~= Seq::<TransferEvent>::empty());
                assert(run_result(transfer.retries as int, events@.skip(idx as int)) is None);
                assert(false);
            }
            Err(DownloadError::Connection)
        },
    };
    let ghost pre_files = dir.files@;
    dir.files.push(DirFile { name: String::from_str(file_name), content: transfer.written });
    proof {
        assert(dir.files@.take(pre_files.len() as int) =~= pre_files);
    }
    proof {
        assert(Some(outcome) == run_result(0, events@));
    }
    outcome
}

/// Whether the manifest entry at position `i` shares its file name with an
/// earlier entry. Such an entry cannot be created exclusively and fails the
/// batch with a filesystem error.
pub open spec fn name_dup(files: Seq<FileManifestEntry>, i: int) -> bool {
    exists|j: int| 0 <= j < i && #[trigger] files[j].file_name@ == files[i].file_name@
}

/// How the batch resolves from file `i` on, files before `i` having
/// succeeded: the first file that repeats a name or whose transfer fails
/// decides the batch's error; otherwise the batch succeeds. `None` when some
/// needed transport script runs out before its transfer resolves.
pub open spec fn batch_result(
    files: Seq<FileManifestEntry>,
    ts: Seq<Vec<TransferEvent>>,
    i: int,
) -> Option<Result<(), DownloadError>>
    decreases files.len() - i,
{
    if i < 0 || i >= files.len() {
        Some(Ok(()))
    } else if name_dup(files, i) {
        Some(Err(DownloadError::Filesystem))
    } else {
        match run_result(0, ts[i]@) {
            None => None,
            Some(Err(e)) => Some(Err(e)),
            Some(Ok(u)) => batch_result(files, ts, i + 1),
        }
    }
}

/// The bytes the batch receives from file `i` on, files before `i` having
/// succeeded: every attempted file contributes the bytes it wrote, and the
/// batch stops at the first failure.
pub open spec fn batch_received(
    files: Seq<FileManifestEntry>,
    ts: Seq<Vec<TransferEvent>>,
    i: int,
) -> nat
    decreases files.len() - i,
{
    if i < 0 || i >= files.len() {
        0
    } else if name_dup(files, i) {
        0
    } else {
        match run_result(0, ts[i]@) {
            None => run_written(Seq::empty(), 0, ts[i]@).len(),
            Some(Err(e)) => run_written(Seq::empty(), 0, ts[i]@).len(),
            Some(Ok(u)) => run_written(Seq::empty(), 0, ts[i]@).len() + batch_received(
                files,
                ts,
                i + 1,
            ),
        }
    }
}

/// Unfolds one successful step of the batch: when file `i` has a fresh name
/// and its transfer succeeds, the batch's outcome and received bytes are
/// those of the remaining files, plus file `i`'s bytes.
proof fn lemma_batch_step_ok(files: Seq<FileManifestEntry>, ts: Seq<Vec<TransferEvent>>, i: int)
    requires
        0 <= i < files.len(),
        !name_dup(files, i),
        run_result(0, ts[i]@) == Some(Ok::<(), DownloadError>(())),
    ensures
        batch_result(files, ts, i) == batch_result(files, ts, i + 1),
        batch_received(files, ts, i) == run_written(Seq::empty(), 0, ts[i]@).len()
            + batch_received(files, ts, i + 1),
{
}

/// Unfolds one failing step of the batch: the first file that repeats a name
/// or whose transfer fails decides the batch's error.
proof fn lemma_batch_step_err(
    files: Seq<FileManifestEntry>,
    ts: Seq<Vec<TransferEvent>>,
    i: int,
    e: DownloadError,
)
    requires
        0 <= i < files.len(),
        name_dup(files, i) ==> e == DownloadError::Filesystem,
        !name_dup(files, i) ==> run_result(0, ts[i]@) == Some(Err::<(), DownloadError>(e)),
    ensures
        batch_result(files, ts, i) == Some(Err::<(), DownloadError>(e)),
        name_dup(files, i) ==> batch_received(files, ts, i) == 0,
        !name_dup(files, i) ==> batch_received(files, ts, i) == run_written(
            Seq::empty(),
            0,
            ts[i]@,
        ).len(),
{
}

/// When the first `i` entries of the manifest are exactly the names the
/// directory holds, entry `i` collides with the directory exactly when it
/// repeats an earlier manifest name.
proof fn lemma_collision_iff_dup(
    d: TargetDir,
    files: Seq<FileManifestEntry>,
    ts: Seq<Vec<TransferEvent>>,
    i: int,
)
    requires
        0 <= i < files.len(),
        d.files@.len() == i,
        forall|k: int| 0 <= k < i ==> (#[trigger] d.files@[k]).name@ == files[k].file_name@,
    ensures
        has_file_named(d, files[i].file_name@) <==> name_dup(files, i),
{
    if name_dup(files, i) {
        let j = choose|j: int| 0 <= j < i && files[j].file_name@ == files[i].file_name@;
        assert(d.files@[j].name@ == files[i].file_name@);
        assert(has_file_named(d, files[i].file_name@));
    }
    if has_file_named(d, files[i].file_name@) {
        let target_name = files[i].file_name@;
        let j = choose|j: int|
            0 <= j < d.files@.len() && #[trigger] d.files@[j].name@ == target_name;
        assert(files[j].file_name@ == files[i].file_name@);
        assert(name_dup(files, i));
    }
}

/// Runs one whole batch against per-file transport scripts: computes the
/// batch total, prepares a clean target directory, downloads every manifest
/// entry through the transfer state machine while aggregating progress, and
/// enforces all-or-nothing semantics — on any failure the target directory
/// is removed and the batch fails with the originating error. The progress
/// observer sees `(0, total)` first, then one non-decreasing cumulative
/// observation per received chunk, each paired with the batch total.
/// One step of the batch: downloads manifest entry `i` into the target
/// directory, keeps the batch's progress accounting, and on failure removes
/// the whole directory.
#[verifier::rlimit(100)]
fn batch_step(
    files: &Vec<FileManifestEntry>,
    transports: &Vec<Vec<TransferEvent>>,
    i: usize,
    dir: &mut TargetDir,
    progress: &mut ProgressAggregator,
    reports: &mut Vec<(u64, u64)>,
    Ghost(base): Ghost<Seq<(u64, u64)>>,
) -> (r: Result<(), DownloadError>)
    requires
        transports@.len() == files@.len(),
        i < files@.len(),
        run_result(0, transports@[i as int]@) is Some,
        old(dir).exists,
        old(dir).files@.len() == i,
        forall|k: int|
            0 <= k < i ==> (#[trigger] old(dir).files@[k]).name@ == files@[k].file_name@ && old(
                dir,
            ).files@[k].content@ == run_written(Seq::empty(), 0, transports@[k]@),
        old(progress).received as nat + batch_received(files@, transports@, i as int)
            == batch_received(files@, transports@, 0),
        batch_received(files@, transports@, 0) <= u64::MAX,
        base.len() < old(reports)@.len(),
        old(reports)@.take(base.len() as int) == base,
        forall|j: int|
            base.len() <= j < old(reports)@.len() ==> (#[trigger] old(reports)@[j]).1 == old(
                progress,
            ).total && old(reports)@[j].0 <= old(progress).received,
        forall|j: int|
            base.len() <= j < old(reports)@.len() - 1 ==> (#[trigger] old(reports)@[j]).0 <= old(
                reports,
            )@[j + 1].0,
        old(reports)@.last().0 == old(progress).received,
    ensures
        final(progress).total == old(progress).total,
        final(progress).received >= old(progress).received,
        r is Ok ==> {
            &&& !name_dup(files@, i as int)
            &&& run_result(0, transports@[i as int]@) == Some(Ok::<(), DownloadError>(()))
            &&& final(dir).exists
            &&& final(dir).files@.len() == i + 1
            &&& (forall|k: int|
                0 <= k < i + 1 ==> (#[trigger] final(dir).files@[k]).name@
                    == files@[k].file_name@ && final(dir).files@[k].content@ == run_written(
                    Seq::empty(),
                    0,
                    transports@[k]@,
                ))
            &&& final(progress).received as nat + batch_received(files@, transports@, i + 1)
                == batch_received(files@, transports@, 0)
        },
        r matches Err(e) ==> {
            &&& batch_result(files@, transports@, i as int) == Some(Err::<(), DownloadError>(e))
            &&& !final(dir).exists
            &&& final(dir).files@.len() == 0
            &&& final(progress).received as nat == batch_received(files@, transports@, 0)
        },
        final(reports)@.len() > base.len(),
        final(reports)@.len() >= old(reports)@.len(),
        final(reports)@.take(base.len() as int) == base,
        final(reports)@.take(old(reports)@.len() as int) == old(reports)@,
        forall|j: int|
            base.len() <= j < final(reports)@.len() ==> (#[trigger] final(reports)@[j]).1 == old(
                progress,
            ).total && final(reports)@[j].0 <= final(progress).received,
        forall|j: int|
            base.len() <= j < final(reports)@.len() - 1 ==> (#[trigger] final(reports)@[j]).0
                <= final(reports)@[j + 1].0,
        final(reports)@.last().0 == final(progress).received,
{
    proof {
        lemma_collision_iff_dup(*dir, files@, transports@, i as int);
        if !name_dup(files@, i as int) {
            match run_result(0, transports@[i as int]@) {
                Some(Ok(u)) => {
                    lemma_batch_step_ok(files@, transports@, i as int);
                },
                Some(Err(e)) => {
                    lemma_batch_step_err(files@, transports@, i as int, e);
                },
                None => {
                },
            }
        } else {
            lemma_batch_step_err(files@, transports@, i as int, DownloadError::Filesystem);
        }
    }
    let ghost pre_received = progress.received;
    let ghost pre_reports = reports@;
    let ghost pre_dir = *dir;
    let file_name_i = files[i].file_name.as_str();
    assert(file_name_i@ == files@[i as int].file_name@);
    let res = download_single_file(dir, file_name_i, &transports[i], progress, reports);
    proof {
        let k = base.len() as int;
        let pre_len = pre_reports.len() as int;
        assert forall|j: int| 0 <= j < pre_len implies reports@[j] == pre_reports[j] by {
            assert(reports@.take(pre_len)[j] == reports@[j]);
        }
        assert(reports@.take(k) =~= base);
        assert(reports@.take(pre_len) =~= pre_reports);
        assert forall|j: int|
            k <= j < reports@.len() implies (#[trigger] reports@[j]).1 == old(progress).total
            && reports@[j].0 <= progress.received by {
            if j < pre_len {
                assert(reports@[j] == pre_reports[j]);
                assert(pre_reports[j].0 <= pre_received);
            }
        }
        assert forall|j: int|
            k <= j < reports@.len() - 1 implies (#[trigger] reports@[j]).0 <= reports@[j + 1].0 by {
            if j + 1 < pre_len {
                assert(reports@[j] == pre_reports[j]);
                assert(reports@[j + 1] == pre_reports[j + 1]);
            } else if j + 1 == pre_len {
                assert(reports@[j] == pre_reports[j]);
                assert(pre_reports[j] == pre_reports.last());
                assert(pre_reports.last().0 == pre_received);
            }
        }
        assert(reports@.last().0 == progress.received);
    }
    if let Err(e) = res {
        dir.exists = false;
        dir.files = Vec::new();
        return Err(e);
    }
    proof {
        assert(!name_dup(files@, i as int));
        assert(run_result(0, transports@[i as int]@) == Some(Ok::<(), DownloadError>(())));
        assert forall|k2: int| 0 <= k2 < i implies dir.files@[k2] == pre_dir.files@[k2] by {
            assert(dir.files@.take(pre_dir.files@.len() as int)[k2] == dir.files@[k2]);
        }
        assert(dir.files@.len() == i + 1);
        assert(dir.files@[i as int] == dir.files@.last());
        assert(dir.files@.last().name@ == files@[i as int].file_name@);
        assert(dir.files@.last().content@ == run_written(Seq::empty(), 0, transports@[i as int]@));
        assert(pre_dir == *old(dir));
        assert forall|k2: int|
            0 <= k2 < i + 1 implies (#[trigger] dir.files@[k2]).name@ == files@[k2].file_name@
            && dir.files@[k2].content@ == run_written(Seq::empty(), 0, transports@[k2]@) by {
            if k2 < i {
                assert(dir.files@[k2] == pre_dir.files@[k2]);
                assert((old(dir).files@[k2]).name@ == files@[k2].file_name@);
            } else {
                assert(dir.files@[k2] == dir.files@.last());
            }
        }
    }
    Ok(())
}

/// Runs one whole batch against per-file transport scripts: computes the
/// batch total, prepares a clean target directory, downloads every manifest
/// entry through the transfer state machine while aggregating progress, and
/// enforces all-or-nothing semantics — on any failure the target directory
/// is removed and the batch fails with the originating error. The progress
/// observer sees `(0, total)` first, then one non-decreasing cumulative
/// observation per received chunk, each paired with the batch total.
#[verifier::rlimit(100)]
pub fn run_batch(
    files: &Vec<FileManifestEntry>,
    transports: &Vec<Vec<TransferEvent>>,
    dir: &mut TargetDir,
    reports: &mut Vec<(u64, u64)>,
) -> (r: Result<(), DownloadError>)
    requires
        transports@.len() == files@.len(),
        forall|i: int|
            0 <= i < transports@.len() ==> run_result(0, #[trigger] transports@[i]@) is Some,
        batch_received(files@, transports@, 0) <= u64::MAX,
    ensures
        !manifest_wf(files@) ==> r == Err::<(), DownloadError>(DownloadError::Manifest)
            && *final(dir) == *old(dir) && final(reports)@ == old(reports)@,
        manifest_wf(files@) ==> {
            &&& Some(r) == batch_result(files@, transports@, 0)
            &&& (r is Ok ==> final(dir).exists && final(dir).files@.len() == files@.len() && (
            forall|i: int|
                0 <= i < files@.len() ==> (#[trigger] final(dir).files@[i]).name@
                    == files@[i].file_name@ && final(dir).files@[i].content@ == run_written(
                    Seq::empty(),
                    0,
                    transports@[i]@,
                )))
            &&& (r is Err ==> !final(dir).exists && final(dir).files@.len() == 0)
            &&& final(reports)@.len() > old(reports)@.len()
            &&& final(reports)@.take(old(reports)@.len() as int) == old(reports)@
            &&& final(reports)@[old(reports)@.len() as int] == (
                0u64,
                total_size_spec(files@) as u64,
            )
            &&& (forall|j: int|
                old(reports)@.len() <= j < final(reports)@.len()
                    ==> (#[trigger] final(reports)@[j]).1 == total_size_spec(files@) as u64
                    && final(reports)@[j].0 as nat <= batch_received(files@, transports@, 0))
            &&& (forall|j: int|
                old(reports)@.len() <= j < final(reports)@.len() - 1
                    ==> (#[trigger] final(reports)@[j]).0 <= final(reports)@[j + 1].0)
            &&& final(reports)@.last().0 as nat == batch_received(files@, transports@, 0)
            &&& final(reports)@.last().1 == total_size_spec(files@) as u64
        },
{
    let total = match total_file_size(files) {
        Ok(total) => total,
        Err(e) => {
            return Err(DownloadError::Manifest);
        },
    };
    prepare_target_path(dir);
    let mut progress = ProgressAggregator::new(total);
    progress.record(0, reports);
    proof {
        assert(reports@.take(old(reports)@.len() as int) =~= old(reports)@);
    }
    let ghost base = old(reports)@;
    let mut i: usize = 0;
    while i < files.len()
        invariant
            transports@.len() == files@.len(),
            forall|k: int|
                0 <= k < transports@.len() ==> run_result(0, #[trigger] transports@[k]@) is Some,
            batch_received(files@, transports@, 0) <= u64::MAX,
            manifest_wf(files@),
            0 <= i <= files@.len(),
            dir.exists,
            dir.files@.len() == i,
            forall|k: int|
                0 <= k < i ==> (#[trigger] dir.files@[k]).name@ == files@[k].file_name@
                    && dir.files@[k].content@ == run_written(Seq::empty(), 0, transports@[k]@),
            batch_result(files@, transports@, i as int) == batch_result(files@, transports@, 0),
            progress.received as nat + batch_received(files@, transports@, i as int)
                == batch_received(files@, transports@, 0),
            progress.total == total,
            total == total_size_spec(files@),
            base == old(reports)@,
            reports@.len() > base.len(),
            reports@.take(base.len() as int) == base,
            reports@[base.len() as int] == (0u64, total),
            forall|j: int|
                base.len() <= j < reports@.len() ==> (#[trigger] reports@[j]).1 == total
                    && reports@[j].0 <= progress.received,
            forall|j: int|
                base.len() <= j < reports@.len() - 1 ==> (#[trigger] reports@[j]).0 <= reports@[j
                    + 1].0,
            reports@.last().0 == progress.received,
        decreases files@.len() - i,
    {
        let ghost pre_reports = reports@;
        let res = batch_step(files, transports, i, dir, &mut progress, reports, Ghost(base));
        proof {
            assert(reports@.take(pre_reports.len() as int)[base.len() as int] == reports@[base.len(
            ) as int]);
            assert(reports@[base.len() as int] == pre_reports[base.len() as int]);
        }
        if let Err(e) = res {
            return Err(e);
        }
        proof {
            lemma_batch_step_ok(files@, transports@, i as int);
        }
        i = i + 1;
    }
    proof {
        assert(batch_result(files@, transports@, files@.len() as int) == Some(Ok::<
            (),
            DownloadError,
        >(())));
        assert(batch_received(files@, transports@, files@.len() as int) == 0);
    }
    Ok(())
}

/// The front unfolding of the batch total: a non-empty manifest's total size
/// is its first entry's size plus the total of the rest.
proof fn lemma_total_front(m: Seq<FileManifestEntry>)
    requires
        m.len() > 0,
    ensures
        total_size_spec(m) == entry_size(m[0]) + total_size_spec(m.drop_first()),
    decreases m.len(),
{
    if m.len() == 1 {
        assert(m.drop_last() =~= Seq::<FileManifestEntry>::empty());
        assert(m.drop_first() =~= Seq::<FileManifestEntry>::empty());
    } else {
        lemma_total_front(m.drop_last());
        assert(m.drop_last().drop_first() =~= m.drop_first().drop_last());
        assert(m.drop_last()[0] == m[0]);
        assert(m.drop_first().last() == m.last());
        assert(total_size_spec(m.drop_first()) == total_size_spec(m.drop_first().drop_last())
            + entry_size(m.drop_first().last()));
    }
}

/// Helper for the progress-completeness law, inducting over the manifest
/// from position `i` to the end.
proof fn lemma_received_complete_from(
    files: Seq<FileManifestEntry>,
    ts: Seq<Vec<TransferEvent>>,
    i: int,
)
    requires
        0 <= i <= files.len(),
        files.len() == ts.len(),
        forall|k: int| i <= k < files.len() ==> !name_dup(files, k),
        forall|k: int|
            i <= k < files.len() ==> run_result(0, #[trigger] ts[k]@) == Some(Ok::<
                (),
                DownloadError,
            >(())),
        forall|k: int|
            i <= k < files.len() ==> run_written(Seq::empty(), 0, #[trigger] ts[k]@).len()
                == entry_size(files[k]),
    ensures
        batch_received(files, ts, i) == total_size_spec(files.skip(i)),
    decreases files.len() - i,
{
    if i == files.len() {
        assert(files.skip(i) =~= Seq::<FileManifestEntry>::empty());
    } else {
        lemma_received_complete_from(files, ts, i + 1);
        lemma_total_front(files.skip(i));
        assert(files.skip(i)[0] == files[i]);
        assert(files.skip(i).drop_first() =~= files.skip(i + 1));
    }
}

/// Progress completeness: when every file of a manifest with pairwise
/// distinct names completes successfully and delivers exactly its declared
/// size, the bytes the batch receives equal the sum of the manifest's file
/// sizes — so the final cumulative progress observation equals the batch
/// total.
pub proof fn lemma_progress_complete(files: Seq<FileManifestEntry>, ts: Seq<Vec<TransferEvent>>)
    requires
        files.len() == ts.len(),
        forall|k: int| 0 <= k < files.len() ==> !name_dup(files, k),
        forall|k: int|
            0 <= k < files.len() ==> run_result(0, #[trigger] ts[k]@) == Some(Ok::<
                (),
                DownloadError,
            >(())),
        forall|k: int|
            0 <= k < files.len() ==> run_written(Seq::empty(), 0, #[trigger] ts[k]@).len()
                == entry_size(files[k]),
    ensures
        batch_received(files, ts, 0) == total_size_spec(files),
{
    lemma_received_complete_from(files, ts, 0);
    assert(files.skip(0) =~= files);
}

} // verus!
