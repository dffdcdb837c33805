//! The resumable single-file transfer state machine.
//!
//! One transfer streams one remote file to disk. Connection-level failures
//! are retried up to a fixed budget with a fixed backoff; a mid-stream read
//! error is treated as a recoverable disconnect and retried unconditionally
//! with a fresh ranged request from the bytes already written, so nothing is
//! re-fetched and nothing is skipped. The machine here makes every decision;
//! the caller performs the requests, reads, writes and sleeps it asks for.

use crate::errors::DownloadError;
use vstd::prelude::*;

verus! {

/// How many times a transfer may retry after a request-establishment
/// failure before failing permanently.
pub const MAX_RETRIES: u32 = 3;

/// How long to wait, in seconds, before retrying a failed request.
pub const BACKOFF_SECS: u64 = 5;

/// What the transport reported back for the machine's last action.
#[derive(Clone, Debug, PartialEq, Eq)]
pub enum TransferEvent {
    /// The ranged GET request could not be established.
    ConnectFailed,
    /// A chunk of the response body was received and written to the file.
    ChunkReceived(Vec<u8>),
    /// A read error occurred mid-stream, after the request was established.
    StreamInterrupted,
    /// The body was fully drained and the file was flushed.
    StreamEnded,
}

/// What the transfer asks its caller to do next.
#[derive(Clone, Copy, Debug, PartialEq, Eq, Structural)]
pub enum TransferAction {
    /// Sleep `backoff_secs` seconds (zero means none), then issue a GET
    /// carrying the byte-range header `bytes={offset}-`.
    Request { offset: u64, backoff_secs: u64 },
    /// Keep reading chunks from the current response body.
    KeepReading,
    /// The transfer is complete.
    Finish,
    /// The transfer failed permanently.
    Abort(DownloadError),
}

/// One in-flight single-file transfer: the bytes written to the file so far,
/// and how much of the retry budget is spent.
pub struct FileTransfer {
    pub written: Vec<u8>,
    pub retries: u32,
}

/// The bytes an event appends to the file.
pub open spec fn event_bytes(e: TransferEvent) -> Seq<u8> {
    match e {
        TransferEvent::ChunkReceived(c) => c@,
        _ => Seq::empty(),
    }
}

/// The bytes on disk once a transfer that already wrote `w` with `retries`
/// spent runs through `events` (stopping at stream end or retry exhaustion).
pub open spec fn run_written(w: Seq<u8>, retries: int, events: Seq<TransferEvent>) -> Seq<u8>
    decreases events.len(),
{
    if events.len() == 0 {
        w
    } else {
        match events[0] {
            TransferEvent::ChunkReceived(c) => run_written(w + c@, retries, events.drop_first()),
            TransferEvent::StreamInterrupted => run_written(w, retries, events.drop_first()),
            TransferEvent::StreamEnded => w,
            TransferEvent::ConnectFailed => if retries >= MAX_RETRIES {
                w
            } else {
                run_written(w, retries + 1, events.drop_first())
            },
        }
    }
}

/// How a transfer with `retries` spent ends under `events`: `None` when the
/// events run out before the transfer resolves, otherwise success or the
/// permanent error.
pub open spec fn run_result(retries: int, events: Seq<TransferEvent>) -> Option<
    Result<(), DownloadError>,
>
    decreases events.len(),
{
    if events.len() == 0 {
        None
    } else {
        match events[0] {
            TransferEvent::ChunkReceived(_) => run_result(retries, events.drop_first()),
            TransferEvent::StreamInterrupted => run_result(retries, events.drop_first()),
            TransferEvent::StreamEnded => Some(Ok(())),
            TransferEvent::ConnectFailed => if retries >= MAX_RETRIES {
                Some(Err(DownloadError::Connection))
            } else {
                run_result(retries + 1, events.drop_first())
            },
        }
    }
}

/// The chunks a transfer with `retries` spent processes under `events`, in
/// order, up to the point where it resolves or the events run out.
pub open spec fn run_chunks(retries: int, events: Seq<TransferEvent>) -> Seq<Seq<u8>>
    decreases events.len(),
{
    if events.len() == 0 {
        Seq::empty()
    } else {
        match events[0] {
            TransferEvent::ChunkReceived(c) => seq![c@] + run_chunks(retries, events.drop_first()),
            TransferEvent::StreamInterrupted => run_chunks(retries, events.drop_first()),
            TransferEvent::StreamEnded => Seq::empty(),
            TransferEvent::ConnectFailed => if retries >= MAX_RETRIES {
                Seq::empty()
            } else {
                run_chunks(retries + 1, events.drop_first())
            },
        }
    }
}

/// A transfer only ever appends to the file: the bytes already written are
/// never shrunk by later events.
pub proof fn lemma_run_written_grows(w: Seq<u8>, retries: int, events: Seq<TransferEvent>)
    ensures
        run_written(w, retries, events).len() >= w.len(),
    decreases events.len(),
{
    if events.len() > 0 {
        match events[0] {
            TransferEvent::ChunkReceived(c) => {
                lemma_run_written_grows(w + c@, retries, events.drop_first());
            },
            TransferEvent::StreamInterrupted => {
                lemma_run_written_grows(w, retries, events.drop_first());
            },
            TransferEvent::StreamEnded => {
            },
            TransferEvent::ConnectFailed => {
                if retries < MAX_RETRIES {
                    lemma_run_written_grows(w, retries + 1, events.drop_first());
                }
            },
        }
    }
}

impl FileTransfer {
    /// Starts a transfer: nothing written, full retry budget, and the first
    /// action is an immediate request from offset zero.
    pub fn begin() -> (r: (FileTransfer, TransferAction))
        ensures
            r.0.written@ == Seq::<u8>::empty(),
            r.0.retries == 0,
            r.1 == (TransferAction::Request { offset: 0, backoff_secs: 0 }),
    {
        let t = FileTransfer { written: Vec::new(), retries: 0 };
        (t, TransferAction::Request { offset: 0, backoff_secs: 0 })
    }

    /// Feeds one transport event to the machine and returns the next action:
    /// a received chunk is appended and reading continues; a mid-stream
    /// interruption re-requests from the bytes already written without
    /// touching the retry budget; a failed request consumes one retry (with
    /// backoff) until the budget is spent, which aborts the transfer; the end
    /// of the stream finishes it.
    pub fn step(&mut self, event: &TransferEvent) -> (action: TransferAction)
        ensures
            final(self).written@ == old(self).written@ + event_bytes(*event),
            *event matches TransferEvent::ChunkReceived(c) ==> final(self).retries
                == old(self).retries && action == TransferAction::KeepReading,
            *event == TransferEvent::StreamInterrupted ==> final(self).retries == old(self).retries
                && action == (TransferAction::Request {
                offset: old(self).written@.len() as u64,
                backoff_secs: 0,
            }),
            *event == TransferEvent::StreamEnded ==> final(self).retries == old(self).retries
                && action == TransferAction::Finish,
            *event == TransferEvent::ConnectFailed && old(self).retries < MAX_RETRIES
                ==> final(self).retries == old(self).retries + 1 && action
                == (TransferAction::Request {
                offset: old(self).written@.len() as u64,
                backoff_secs: BACKOFF_SECS,
            }),
            *event == TransferEvent::ConnectFailed && old(self).retries >= MAX_RETRIES
                ==> final(self).retries == old(self).retries && action == TransferAction::Abort(
                DownloadError::Connection,
            ),
    {
        match event {
            TransferEvent::ChunkReceived(c) => {
                let mut j: usize = 0;
                while j < c.len()
                    invariant
                        0 <= j <= c@.len(),
                        self.written@ == old(self).written@ + c@.take(j as int),
                        self.retries == old(self).retries,
                    decreases c@.len() - j,
                {
                    self.written.push(c[j]);
                    proof {
                        assert(c@.take(j + 1) =~= c@.take(j as int) + seq![c@[j as int]]);
                        assert(old(self).written@ + c@.take(j + 1) =~= (old(self).written@
                            + c@.take(j as int)) + seq![c@[j as int]]);
                    }
                    j = j + 1;
                }
                proof {
                    assert(c@.take(c@.len() as int) =~= c@);
                }
                TransferAction::KeepReading
            },
            TransferEvent::StreamInterrupted => {
                proof {
                    assert(self.written@ =~= self.written@ + Seq::<u8>::empty());
                }
                TransferAction::Request { offset: self.written.len() as u64, backoff_secs: 0 }
            },
            TransferEvent::StreamEnded => {
                proof {
                    assert(self.written@ =~= self.written@ + Seq::<u8>::empty());
                }
                TransferAction::Finish
            },
            TransferEvent::ConnectFailed => {
                proof {
                    assert(self.written@ =~= self.written@ + Seq::<u8>::empty());
                }
                if self.retries < MAX_RETRIES {
                    self.retries = self.retries + 1;
                    TransferAction::Request {
                        offset: self.written.len() as u64,
                        backoff_secs: BACKOFF_SECS,
                    }
                } else {
                    TransferAction::Abort(DownloadError::Connection)
                }
            },
        }
    }
}

/// Resuming after an interruption is seamless: if the stream drops once
/// after `k` bytes and the ranged re-request delivers exactly the remainder
/// from offset `k`, the transfer succeeds and writes bytes identical to an
/// uninterrupted full delivery — no duplicate and no missing bytes at the
/// seam.
pub proof fn lemma_resume_seamless(
    server: Seq<u8>,
    k: int,
    pre: Vec<u8>,
    post: Vec<u8>,
    full: Vec<u8>,
    interrupted: Seq<TransferEvent>,
    direct: Seq<TransferEvent>,
)
    requires
        0 <= k <= server.len(),
        pre@ == server.take(k),
        post@ == server.skip(k),
        full@ == server,
        interrupted == seq![
            TransferEvent::ChunkReceived(pre),
            TransferEvent::StreamInterrupted,
            TransferEvent::ChunkReceived(post),
            TransferEvent::StreamEnded,
        ],
        direct == seq![TransferEvent::ChunkReceived(full), TransferEvent::StreamEnded],
    ensures
        run_result(0, interrupted) == Some(Ok::<(), DownloadError>(())),
        run_result(0, direct) == Some(Ok::<(), DownloadError>(())),
        run_written(Seq::empty(), 0, interrupted) == server,
        run_written(Seq::empty(), 0, direct) == server,
        run_written(Seq::empty(), 0, interrupted) == run_written(Seq::empty(), 0, direct),
{
    let s1 = interrupted.drop_first();
    let s2 = s1.drop_first();
    let s3 = s2.drop_first();
    assert(s1 =~= seq![
        TransferEvent::StreamInterrupted,
        TransferEvent::ChunkReceived(post),
        TransferEvent::StreamEnded,
    ]);
    assert(s2 =~= seq![TransferEvent::ChunkReceived(post), TransferEvent::StreamEnded]);
    assert(s3 =~= seq![TransferEvent::StreamEnded]);
    let d1 = direct.drop_first();
    assert(d1 =~= seq![TransferEvent::StreamEnded]);
    assert(Seq::<u8>::empty() + pre@ =~= pre@);
    assert(Seq::<u8>::empty() + full@ =~= full@);
    assert(pre@ + post@ =~= server);
    assert(run_result(0, interrupted) == run_result(0, s1));
    assert(run_result(0, s1) == run_result(0, s2));
    assert(run_result(0, s2) == run_result(0, s3));
    assert(run_result(0, s3) == Some(Ok::<(), DownloadError>(())));
    assert(run_result(0, direct) == run_result(0, d1));
    assert(run_result(0, d1) == Some(Ok::<(), DownloadError>(())));
    assert(run_written(Seq::empty(), 0, interrupted) == run_written(pre@, 0, s1));
    assert(run_written(pre@, 0, s1) == run_written(pre@, 0, s2));
    assert(run_written(pre@, 0, s2) == run_written(pre@ + post@, 0, s3));
    assert(run_written(pre@ + post@, 0, s3) == server);
    assert(run_written(Seq::empty(), 0, direct) == run_written(full@, 0, d1));
    assert(run_written(full@, 0, d1) == server);
}

} // verus!
