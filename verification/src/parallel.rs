//! A download in segments: what is to be fetched, what is being fetched, what is there.
use crate::chunks;
use crate::chunks::Segment;
use crate::error::{DlError, DlErrorView};
use crate::headers;
use crate::probe::{HttpProbe, ProbeView};
use crate::state;
use crate::state::{InlineDownloadState, StateView};
use crate::stream;
use crate::types;
use crate::types::{
    DownloadKind, DownloadPhase, DownloadProgress, DownloadSummary, ProgressView, SummaryView,
};
use std::collections::VecDeque;
use vstd::prelude::*;
use vstd::string::*;

verus! {

/// What the workers of a download share: the segments that wait, the chunks that are complete,
/// and the counts that are reported.
pub struct TransferBoard {
    pub url: String,
    pub total_size: u64,
    pub chunk_size: u64,
    pub etag: Option<String>,
    pub last_modified: Option<String>,
    pub queue: VecDeque<Segment>,
    pub completed: Vec<bool>,
    /// Bytes that came in, those of failed attempts too.
    pub downloaded: u64,
    pub completed_count: usize,
    pub active_workers: usize,
    /// Whether the state is saved at all.
    pub saves_state: bool,
    /// How often the state is saved, in nanoseconds.
    pub flush_interval: u64,
    /// When the state was last due to be saved, in nanoseconds.
    pub last_flush: u64,
    /// The chunks that a worker is fetching.
    pub in_flight: Ghost<Set<int>>,
    /// The chunks that a worker gave up.
    pub lost: Ghost<Set<int>>,
}

/// Chunk `i` waits in the queue.
pub open spec fn waits(queue: Seq<Segment>, i: int) -> bool {
    exists|k: int| 0 <= k < queue.len() && (#[trigger] queue[k]).index == i
}

impl TransferBoard {
    /// Every chunk is complete, waiting, being fetched or given up; the queue is in the order of
    /// the file, and the counts are right.
    pub open spec fn wf(self) -> bool {
        &&& self.chunk_size > 0
        &&& self.completed@.len() == chunks::chunk_total(
            self.total_size as int,
            self.chunk_size as int,
        )
        &&& self.completed_count == chunks::completed_total(self.completed@)
        &&& self.in_flight@.finite()
        &&& self.active_workers == self.in_flight@.len()
        &&& forall|k: int|
            0 <= k < self.queue@.len() ==> {
                let segment = #[trigger] self.queue@[k];
                &&& segment.wf()
                &&& segment.index < self.completed@.len()
                &&& chunks::is_chunk(
                    segment,
                    segment.index as int,
                    self.total_size as int,
                    self.chunk_size as int,
                )
                &&& !self.completed@[segment.index as int]
                &&& !self.in_flight@.contains(segment.index as int)
                &&& !self.lost@.contains(segment.index as int)
            }
        &&& forall|k: int, l: int|
            0 <= k < l < self.queue@.len() ==> (#[trigger] self.queue@[k]).index < (
            #[trigger] self.queue@[l]).index
        &&& forall|i: int| #[trigger]
            self.in_flight@.contains(i) ==> {
                &&& 0 <= i < self.completed@.len()
                &&& !self.completed@[i]
                &&& !self.lost@.contains(i)
            }
        &&& forall|i: int|
            0 <= i < self.completed@.len() ==> {
                ||| #[trigger] self.completed@[i]
                ||| self.in_flight@.contains(i)
                ||| self.lost@.contains(i)
                ||| waits(self.queue@, i)
            }
    }

    /// What the board knows of the file, which no worker changes.
    pub open spec fn same_download(self, other: TransferBoard) -> bool {
        &&& self.url == other.url
        &&& self.total_size == other.total_size
        &&& self.chunk_size == other.chunk_size
        &&& self.etag == other.etag
        &&& self.last_modified == other.last_modified
        &&& self.saves_state == other.saves_state
        &&& self.flush_interval == other.flush_interval
        &&& self.completed@.len() == other.completed@.len()
    }

    /// Hands the next waiting segment to a worker, which is active from then on.
    pub fn pop_segment(&mut self) -> (r: Option<Segment>)
        requires
            old(self).wf(),
        ensures
            final(self).wf(),
            hands_out(*old(self), *final(self), r),
    {
        match self.queue.pop_front() {
            Some(segment) => {
                proof {
                    lemma_in_flight_bound(*old(self), segment.index as int);
                    assert(self.queue@ =~= old(self).queue@.drop_first());
                }
                self.active_workers = self.active_workers + 1;
                self.in_flight = Ghost(self.in_flight@.insert(segment.index as int));
                proof {
                    assert forall|i: int| 0 <= i < self.completed@.len() implies {
                        ||| #[trigger] self.completed@[i]
                        ||| self.in_flight@.contains(i)
                        ||| self.lost@.contains(i)
                        ||| waits(self.queue@, i)
                    } by {
                        if waits(old(self).queue@, i) && i != segment.index {
                            let k = choose|k: int|
                                0 <= k < old(self).queue@.len() && (#[trigger] old(
                                    self,
                                ).queue@[k]).index == i;
                            assert(self.queue@[k - 1] == old(self).queue@[k]);
                        }
                    }
                }
                Some(segment)
            },
            None => None,
        }
    }

    /// Counts bytes that came in; the count so far.
    pub fn receive_bytes(&mut self, len: u64) -> (r: u64)
        requires
            old(self).wf(),
        ensures
            final(self).wf(),
            *final(self) == (TransferBoard { downloaded: r, ..*old(self) }),
            r == (old(self).downloaded + len) % 0x1_0000_0000_0000_0000,
            old(self).downloaded + len <= u64::MAX ==> r == old(self).downloaded + len,
    {
        self.downloaded = self.downloaded.wrapping_add(len);
        self.downloaded
    }

    /// Marks a segment that a worker has fetched, at the moment `now`.
    pub fn complete_segment(&mut self, segment: &Segment, now: u64) -> (r: SegmentDone)
        requires
            old(self).wf(),
            old(self).in_flight@.contains(segment.index as int),
        ensures
            final(self).wf(),
            completes(*old(self), *final(self), *segment, now, r),
    {
        proof {
            assert(old(self).in_flight@.len() > 0);
            chunks::lemma_count_of_update(self.completed@, segment.index as int);
            chunks::lemma_count_bound(self.completed@.update(segment.index as int, true));
            assert(self.completed.len() == self.completed@.len());
        }
        self.active_workers = self.active_workers - 1;
        self.in_flight = Ghost(self.in_flight@.remove(segment.index as int));
        self.completed.set(segment.index, true);
        self.completed_count = self.completed_count + 1;
        let completed_count: usize = self.completed_count;
        let is_final: bool = completed_count == self.completed.len();
        let since: u64 = if now < self.last_flush {
            0
        } else {
            now - self.last_flush
        };
        let should_flush: bool = self.saves_state && (since >= self.flush_interval || is_final);
        if should_flush {
            self.last_flush = now;
        }
        proof {
            assert(self.completed@ =~= old(self).completed@.update(segment.index as int, true));
        }
        SegmentDone { completed_count, is_final, should_flush }
    }

    /// Marks a segment that a worker could not fetch.
    pub fn abandon_segment(&mut self, segment: &Segment)
        requires
            old(self).wf(),
            old(self).in_flight@.contains(segment.index as int),
        ensures
            final(self).wf(),
            abandons(*old(self), *final(self), *segment),
    {
        proof {
            assert(old(self).in_flight@.len() > 0);
        }
        self.active_workers = self.active_workers - 1;
        self.in_flight = Ghost(self.in_flight@.remove(segment.index as int));
        self.lost = Ghost(self.lost@.insert(segment.index as int));
    }
}

/// What a completed segment brings about.
#[derive(Clone, Copy, Debug, PartialEq, Eq, Structural)]
pub struct SegmentDone {
    pub completed_count: usize,
    /// Every chunk is complete now.
    pub is_final: bool,
    /// The state is to be saved now; to the disk for good if this was the last segment.
    pub should_flush: bool,
}

/// The next waiting segment, if there is one, goes from the queue to a worker.
pub open spec fn hands_out(
    before: TransferBoard,
    after: TransferBoard,
    segment: Option<Segment>,
) -> bool {
    &&& after.same_download(before)
    &&& after.completed@ == before.completed@
    &&& after.completed_count == before.completed_count
    &&& after.downloaded == before.downloaded
    &&& after.last_flush == before.last_flush
    &&& after.lost@ == before.lost@
    &&& match segment {
        Some(segment) => {
            &&& before.queue@.len() > 0
            &&& segment == before.queue@[0]
            &&& segment.wf()
            &&& chunks::is_chunk(
                segment,
                segment.index as int,
                before.total_size as int,
                before.chunk_size as int,
            )
            &&& !before.completed@[segment.index as int]
            &&& !before.in_flight@.contains(segment.index as int)
            &&& after.queue@ == before.queue@.drop_first()
            &&& after.in_flight@ == before.in_flight@.insert(segment.index as int)
            &&& after.active_workers == before.active_workers + 1
        },
        None => {
            &&& before.queue@.len() == 0
            &&& after.queue@ == before.queue@
            &&& after.in_flight@ == before.in_flight@
            &&& after.active_workers == before.active_workers
        },
    }
}

/// A segment that a worker was fetching is complete at the moment `now`. The state, if it is saved
/// at all, is to be saved with the last segment, and when it was not saved for the flush interval.
pub open spec fn completes(
    before: TransferBoard,
    after: TransferBoard,
    segment: Segment,
    now: u64,
    done: SegmentDone,
) -> bool {
    &&& after.same_download(before)
    &&& after.queue@ == before.queue@
    &&& after.downloaded == before.downloaded
    &&& after.lost@ == before.lost@
    &&& after.completed@ == before.completed@.update(segment.index as int, true)
    &&& after.in_flight@ == before.in_flight@.remove(segment.index as int)
    &&& after.active_workers == before.active_workers - 1
    &&& after.completed_count == before.completed_count + 1
    &&& done.completed_count == after.completed_count
    &&& done.is_final <==> (forall|i: int|
        0 <= i < after.completed@.len() ==> #[trigger] after.completed@[i])
    &&& done.should_flush <==> before.saves_state && (done.is_final || stream::elapsed(
        before.last_flush,
        now,
    ) >= before.flush_interval)
    &&& after.last_flush == if done.should_flush {
        now
    } else {
        before.last_flush
    }
}

/// A segment that a worker was fetching is given up.
pub open spec fn abandons(before: TransferBoard, after: TransferBoard, segment: Segment) -> bool {
    &&& after.same_download(before)
    &&& after.queue@ == before.queue@
    &&& after.completed@ == before.completed@
    &&& after.completed_count == before.completed_count
    &&& after.downloaded == before.downloaded
    &&& after.last_flush == before.last_flush
    &&& after.in_flight@ == before.in_flight@.remove(segment.index as int)
    &&& after.lost@ == before.lost@.insert(segment.index as int)
    &&& after.active_workers == before.active_workers - 1
}

/// What is saved of the board at a moment, given in seconds since 1970.
pub open spec fn saved_board(board: TransferBoard, unix_secs: u64) -> StateView {
    StateView {
        version: state::STATE_VERSION,
        kind: DownloadKind::Http,
        source: board.url@,
        total_size: board.total_size,
        chunk_size: board.chunk_size,
        completed_chunks: board.completed@,
        etag: headers::opt_text(board.etag),
        last_modified: headers::opt_text(board.last_modified),
        updated_at_unix_secs: unix_secs,
    }
}

/// The report on the board in a phase; the last two phases tell of the whole file.
pub open spec fn board_report(
    board: TransferBoard,
    phase: DownloadPhase,
    output_path: Seq<char>,
) -> ProgressView {
    let closing = phase == DownloadPhase::Finalizing || phase == DownloadPhase::Complete;
    ProgressView {
        kind: DownloadKind::Http,
        phase,
        source: board.url@,
        output_path,
        downloaded_bytes: if closing {
            board.total_size
        } else {
            board.downloaded
        },
        total_bytes: Some(board.total_size),
        active_workers: if closing {
            0
        } else {
            board.active_workers
        },
        completed_chunks: Some(
            if closing {
                board.completed.len()
            } else {
                board.completed_count
            },
        ),
        total_chunks: Some(board.completed.len()),
    }
}

impl TransferBoard {
    /// The state to save at a moment, given in seconds since 1970.
    pub fn persist_worker_state(&self, unix_secs: u64) -> (r: InlineDownloadState)
        ensures
            r@ == saved_board(*self, unix_secs),
    {
        let completed = self.completed.clone();
        assert(completed@ =~= self.completed@);
        let mut saved = InlineDownloadState::new(
            DownloadKind::Http,
            self.url.clone(),
            self.total_size,
            self.chunk_size,
            completed,
            types::copy_text(&self.etag),
            types::copy_text(&self.last_modified),
        );
        saved.updated_at_unix_secs = unix_secs;
        saved
    }

    /// The report on the board in a phase, for whoever listens.
    pub fn report(&self, listening: bool, phase: DownloadPhase, output_path: &str) -> (r: Option<
        DownloadProgress,
    >)
        ensures
            r is Some <==> listening,
            r is Some ==> r->Some_0@ == board_report(*self, phase, output_path@),
    {
        let closing: bool = phase == DownloadPhase::Finalizing || phase == DownloadPhase::Complete;
        let total_chunks: usize = self.completed.len();
        types::emit_progress(
            listening,
            phase,
            &self.url,
            output_path,
            if closing {
                self.total_size
            } else {
                self.downloaded
            },
            Some(self.total_size),
            if closing {
                0
            } else {
                self.active_workers
            },
            Some(
                if closing {
                    total_chunks
                } else {
                    self.completed_count
                },
            ),
            Some(total_chunks),
        )
    }

    /// The report on a segment that made so many chunks complete, for whoever listens.
    pub fn report_segment(&self, listening: bool, completed_count: usize, output_path: &str) -> (r:
        Option<DownloadProgress>)
        ensures
            r is Some <==> listening,
            r is Some ==> r->Some_0@ == (ProgressView {
                completed_chunks: Some(completed_count),
                ..board_report(*self, DownloadPhase::Downloading, output_path@)
            }),
    {
        types::emit_progress(
            listening,
            DownloadPhase::Downloading,
            &self.url,
            output_path,
            self.downloaded,
            Some(self.total_size),
            self.active_workers,
            Some(completed_count),
            Some(self.completed.len()),
        )
    }

    /// The outcome of the download once every segment is there.
    pub fn summary(&self, output_path: &str, resumed: bool) -> (r: DownloadSummary)
        ensures
            r@ == (SummaryView {
                kind: DownloadKind::Http,
                source: self.url@,
                output_path: output_path@,
                total_bytes: self.total_size,
                downloaded_bytes: self.total_size,
                resumed,
            }),
    {
        DownloadSummary {
            kind: DownloadKind::Http,
            source: self.url.clone(),
            output_path: output_path.to_string(),
            total_bytes: self.total_size,
            downloaded_bytes: self.total_size,
            resumed,
        }
    }
}

/// What happened to a worker.
#[derive(Debug)]
pub enum WorkerEvent {
    /// It is free for a segment.
    Ready,
    /// It is done with a segment, at the moment `now`.
    Fetched { segment: Segment, outcome: Result<(), DlError>, now: u64 },
    /// The state that was to be saved after a segment is saved, or could not be.
    Saved { completed_count: usize, outcome: Result<(), DlError> },
}

/// What a worker does next.
#[derive(Debug, PartialEq, Eq)]
pub enum WorkerAction {
    Fetch(Segment),
    /// Save the state; for good if every chunk is complete.
    Save { completed_count: usize, sync_to_disk: bool },
    /// Report so many complete chunks; the worker is free then.
    Report { completed_count: usize },
    Stop,
    Fail(DlError),
}

/// The event is one that this board can see: a worker is done only with a segment that it was
/// fetching.
pub open spec fn plausible(board: TransferBoard, event: WorkerEvent) -> bool {
    match event {
        WorkerEvent::Fetched { segment, outcome, now } => board.in_flight@.contains(
            segment.index as int,
        ),
        _ => true,
    }
}

/// What a worker does after an event, and what becomes of the board: it fetches as long as
/// segments wait, its first failure is its end, and a segment that is there is saved, if that is
/// due, and reported.
pub open spec fn worker_next(
    before: TransferBoard,
    event: WorkerEvent,
    after: TransferBoard,
    action: WorkerAction,
) -> bool {
    match event {
        WorkerEvent::Ready => match action {
            WorkerAction::Fetch(segment) => hands_out(before, after, Some(segment)),
            WorkerAction::Stop => hands_out(before, after, None),
            _ => false,
        },
        WorkerEvent::Fetched { segment, outcome: Err(error), now } => {
            &&& action == WorkerAction::Fail(error)
            &&& abandons(before, after, segment)
        },
        WorkerEvent::Fetched { segment, outcome: Ok(()), now } => exists|done: SegmentDone|
            {
                &&& #[trigger] completes(before, after, segment, now, done)
                &&& action == if done.should_flush {
                    WorkerAction::Save {
                        completed_count: done.completed_count,
                        sync_to_disk: done.is_final,
                    }
                } else {
                    WorkerAction::Report { completed_count: done.completed_count }
                }
            },
        WorkerEvent::Saved { completed_count, outcome: Ok(()) } => {
            &&& after == before
            &&& action == WorkerAction::Report { completed_count }
        },
        WorkerEvent::Saved { completed_count, outcome: Err(error) } => {
            &&& after == before
            &&& action == WorkerAction::Fail(error)
        },
    }
}

/// What a worker does after an event.
pub fn run_worker(board: &mut TransferBoard, event: WorkerEvent) -> (r: WorkerAction)
    requires
        old(board).wf(),
        plausible(*old(board), event),
    ensures
        final(board).wf(),
        worker_next(*old(board), event, *final(board), r),
{
    match event {
        WorkerEvent::Ready => match board.pop_segment() {
            Some(segment) => WorkerAction::Fetch(segment),
            None => WorkerAction::Stop,
        },
        WorkerEvent::Fetched { segment, outcome: Err(error), now: _ } => {
            board.abandon_segment(&segment);
            WorkerAction::Fail(error)
        },
        WorkerEvent::Fetched { segment, outcome: Ok(()), now } => {
            let done = board.complete_segment(&segment, now);
            assert(completes(*old(board), *board, segment, now, done));
            if done.should_flush {
                WorkerAction::Save {
                    completed_count: done.completed_count,
                    sync_to_disk: done.is_final,
                }
            } else {
                WorkerAction::Report { completed_count: done.completed_count }
            }
        },
        WorkerEvent::Saved { completed_count, outcome: Ok(()) } => WorkerAction::Report {
            completed_count,
        },
        WorkerEvent::Saved { completed_count: _, outcome: Err(error) } => WorkerAction::Fail(error),
    }
}

/// What the end of a worker means for the download: its error ends it, and so does a worker that
/// did not come to an end by itself, which `Err` tells the cause of.
pub fn worker_outcome(joined: Result<Result<(), DlError>, String>) -> (r: Result<(), DlError>)
    ensures
        match joined {
            Ok(Ok(())) => r is Ok,
            Ok(Err(error)) => r == Err::<(), DlError>(error),
            Err(cause) => r is Err && r->Err_0@ == DlErrorView::Join(cause@),
        },
{
    match joined {
        Ok(outcome) => outcome,
        Err(cause) => Err(DlError::Join(cause)),
    }
}

/// There is at least one worker, and there are no more of them than connections or chunks, as far
/// as there are any.
pub proof fn law_worker_count_is_bounded(connections: usize, total_chunks: int)
    requires
        total_chunks >= 0,
    ensures
        workers_for(connections, total_chunks) >= 1,
        connections >= 1 ==> workers_for(connections, total_chunks) <= connections,
        total_chunks >= 1 ==> workers_for(connections, total_chunks) <= total_chunks,
        1 <= connections <= total_chunks ==> workers_for(connections, total_chunks) == connections,
{
}

/// As long as no worker fails, no segment is lost.
pub proof fn law_only_failures_lose_segments(
    before: TransferBoard,
    event: WorkerEvent,
    after: TransferBoard,
    action: WorkerAction,
)
    requires
        worker_next(before, event, after, action),
        action !is Fail,
    ensures
        after.lost@ == before.lost@,
{
}

/// What is complete stays complete, whatever the workers do.
pub proof fn law_complete_chunks_stay_complete(
    before: TransferBoard,
    event: WorkerEvent,
    after: TransferBoard,
    action: WorkerAction,
    chunk: int,
)
    requires
        before.wf(),
        plausible(before, event),
        worker_next(before, event, after, action),
        0 <= chunk < before.completed@.len(),
        before.completed@[chunk],
    ensures
        after.completed@.len() == before.completed@.len(),
        after.completed@[chunk],
{
}

/// Workers come to an end: a segment that is handed out never waits again, and a worker stops
/// when none waits.
pub proof fn law_workers_drain_the_queue(
    before: TransferBoard,
    event: WorkerEvent,
    after: TransferBoard,
    action: WorkerAction,
)
    requires
        worker_next(before, event, after, action),
    ensures
        action is Fetch ==> after.queue@.len() + 1 == before.queue@.len(),
        action !is Fetch ==> after.queue@ == before.queue@,
        event is Ready && before.queue@.len() == 0 ==> action is Stop,
{
}

/// A download that is not to be taken up again never saves its state.
pub proof fn law_fresh_download_saves_no_state(
    before: TransferBoard,
    event: WorkerEvent,
    after: TransferBoard,
    action: WorkerAction,
)
    requires
        worker_next(before, event, after, action),
        !before.saves_state,
    ensures
        action !is Save,
        !after.saves_state,
{
}

/// When nothing waits, nobody is fetching and nothing was given up, the whole file is there.
pub proof fn law_drained_board_is_complete(board: TransferBoard)
    requires
        board.wf(),
        board.queue@.len() == 0,
        board.active_workers == 0,
        board.lost@ == Set::<int>::empty(),
    ensures
        forall|i: int| 0 <= i < board.completed@.len() ==> #[trigger] board.completed@[i],
        board.completed_count == board.completed@.len(),
        chunks::completed_size(
            board.completed@,
            board.total_size as int,
            board.chunk_size as int,
        ) == board.total_size,
{
    assert(board.in_flight@ =~= Set::<int>::empty());
    chunks::lemma_count_bound(board.completed@);
    chunks::lemma_missing_chunks(board.completed@);
    let missing = chunks::missing_chunks(board.completed@);
    if missing.len() > 0 {
        assert(!board.completed@[missing[0]]);
    }
    chunks::law_complete_and_missing_make_the_file(
        board.completed@,
        board.total_size,
        board.chunk_size,
    );
}

/// A download that is started again from what was saved of it, for the same file in chunks of
/// the same size, has the chunks that were complete then, and fetches the others.
pub proof fn law_saved_board_resumes(board: TransferBoard, unix_secs: u64, probe: ProbeView)
    requires
        board.wf(),
        state::validator_matches(headers::opt_text(board.etag), probe.etag),
        state::validator_matches(headers::opt_text(board.last_modified), probe.last_modified),
    ensures
        resumes(
            Some(saved_board(board, unix_secs)),
            board.url@,
            board.total_size,
            board.chunk_size,
            probe,
        ),
        starting_chunks(
            Some(saved_board(board, unix_secs)),
            board.url@,
            board.total_size,
            board.chunk_size,
            probe,
        ) == board.completed@,
{
}

/// A download never goes on from the state of another file: a different source, size or chunk
/// size, or a validator that the server no longer has, start it from nothing.
pub proof fn law_other_files_state_is_not_used(
    saved: StateView,
    url: Seq<char>,
    total_size: u64,
    chunk_size: u64,
    probe: ProbeView,
)
    requires
        chunk_size > 0,
        saved.source != url || saved.total_size != total_size || saved.chunk_size != chunk_size
            || saved.version != state::STATE_VERSION || saved.kind != DownloadKind::Http || (
        saved.etag is Some && probe.etag is Some && saved.etag != probe.etag) || (
        saved.last_modified is Some && probe.last_modified is Some && saved.last_modified
            != probe.last_modified),
    ensures
        !resumes(Some(saved), url, total_size, chunk_size, probe),
        forall|i: int|
            0 <= i < starting_chunks(Some(saved), url, total_size, chunk_size, probe).len()
                ==> !#[trigger] starting_chunks(
                Some(saved),
                url,
                total_size,
                chunk_size,
                probe,
            )[i],
{
}

/// A download that is not to take anything up again is planned alike whatever state was read, and
/// from nothing.
pub proof fn law_fresh_plan_reuses_nothing(
    one: Result<Option<StateView>, DlErrorView>,
    other: Result<Option<StateView>, DlErrorView>,
    url: Seq<char>,
    total_size: u64,
    chunk_size: u64,
    probe: ProbeView,
)
    requires
        chunk_size > 0,
    ensures
        plan_state(false, one) == plan_state(false, other),
        plan_state(false, one) is Ok,
        !resumes(plan_state(false, one)->Ok_0, url, total_size, chunk_size, probe),
        starting_chunks(plan_state(false, one)->Ok_0, url, total_size, chunk_size, probe)
            == Seq::new(
            chunks::chunk_total(total_size as int, chunk_size as int) as nat,
            |i: int| false,
        ),
{
}

/// Of two waiting segments, the one that is handed out first ends before the other begins.
pub proof fn law_segments_do_not_overlap(board: TransferBoard, k: int, l: int)
    requires
        board.wf(),
        0 <= k < l < board.queue@.len(),
    ensures
        board.queue@[k].end < board.queue@[l].start,
{
    let a = board.queue@[k];
    let b = board.queue@[l];
    let chunk = board.chunk_size as int;
    let i = a.index as int;
    let j = b.index as int;
    assert(i < j);
    assert((i + 1) * chunk <= j * chunk) by (nonlinear_arith)
        requires
            i + 1 <= j,
            chunk > 0,
    ;
    assert((i + 1) * chunk == i * chunk + chunk) by (nonlinear_arith);
}

/// No more chunks are in flight than there are chunks that are not complete.
proof fn lemma_in_flight_bound(board: TransferBoard, extra: int)
    requires
        board.wf(),
        0 <= extra < board.completed@.len(),
        !board.in_flight@.contains(extra),
    ensures
        board.in_flight@.len() < board.completed.len(),
{
    let all = vstd::set_lib::set_int_range(0, board.completed@.len() as int);
    vstd::set_lib::lemma_int_range(0, board.completed@.len() as int);
    assert(board.in_flight@.insert(extra).subset_of(all));
    vstd::set_lib::lemma_len_subset(board.in_flight@.insert(extra), all);
}

/// The saved state is one that this download can go on from.
pub open spec fn resumes(
    saved: Option<StateView>,
    url: Seq<char>,
    total_size: u64,
    chunk_size: u64,
    probe: ProbeView,
) -> bool {
    match saved {
        Some(state) => {
            &&& state::compatible(
                state,
                DownloadKind::Http,
                url,
                total_size,
                chunk_size,
                probe.etag,
                probe.last_modified,
            )
            &&& state.completed_chunks.len() == chunks::chunk_total(
                total_size as int,
                chunk_size as int,
            )
        },
        None => false,
    }
}

/// The chunks that are complete when the download starts.
pub open spec fn starting_chunks(
    saved: Option<StateView>,
    url: Seq<char>,
    total_size: u64,
    chunk_size: u64,
    probe: ProbeView,
) -> Seq<bool> {
    if resumes(saved, url, total_size, chunk_size, probe) {
        saved->Some_0.completed_chunks
    } else {
        Seq::new(chunks::chunk_total(total_size as int, chunk_size as int) as nat, |i: int| false)
    }
}

/// How many workers there are for so many chunks.
pub open spec fn workers_for(connections: usize, total_chunks: int) -> int {
    if total_chunks < 1 || connections < 1 {
        1
    } else if connections < total_chunks {
        connections as int
    } else {
        total_chunks
    }
}

/// A download in segments, ready to start.
pub struct ParallelPlan {
    pub board: TransferBoard,
    /// The download goes on from a saved state; if not, the file is made anew.
    pub resumed: bool,
    /// Nothing is left to fetch.
    pub complete: bool,
    pub worker_count: usize,
}

pub open spec fn opt_state(saved: Option<InlineDownloadState>) -> Option<StateView> {
    match saved {
        Some(state) => Some(state@),
        None => None,
    }
}

pub open spec fn read_view(read: Result<Option<InlineDownloadState>, DlError>) -> Result<
    Option<StateView>,
    DlErrorView,
> {
    match read {
        Ok(found) => Ok(opt_state(found)),
        Err(error) => Err(error@),
    }
}

/// What a plan rests on of the state that was read: all of it, if the download is to go on from
/// one, and nothing otherwise.
pub open spec fn plan_state(
    resume: bool,
    read: Result<Option<StateView>, DlErrorView>,
) -> Result<Option<StateView>, DlErrorView> {
    if resume {
        read
    } else {
        Ok(None)
    }
}

/// Plans the download in segments of the file that `probe` tells of. `read` is what came of
/// reading the state that is saved with the file; it counts only if the download is to go on from
/// one, and then a state that could not be read ends it. Without that no state is saved either.
pub fn download_parallel(
    url: &String,
    probe: &HttpProbe,
    connections: usize,
    chunk_size: u64,
    flush_interval: u64,
    resume: bool,
    read: Result<Option<InlineDownloadState>, DlError>,
    now: u64,
) -> (r: Result<ParallelPlan, DlError>)
    requires
        chunk_size > 0,
        probe.total_size is Some ==> chunks::chunk_total(
            probe.total_size->Some_0 as int,
            chunk_size as int,
        ) <= usize::MAX,
    ensures
        match (probe.total_size, plan_state(resume, read_view(read)), r) {
            (None, _, Err(error)) => error@ == DlErrorView::InvalidResponse(
                "missing content length"@,
            ),
            (Some(_), Err(unread), Err(error)) => error@ == unread,
            (Some(total_size), Ok(found), Ok(plan)) => {
                let flags = starting_chunks(
                    found,
                    url@,
                    total_size,
                    chunk_size,
                    probe@,
                );
                let board = plan.board;
                &&& plan.resumed == resumes(
                    found,
                    url@,
                    total_size,
                    chunk_size,
                    probe@,
                )
                &&& plan.complete <==> (forall|i: int|
                    0 <= i < flags.len() ==> #[trigger] flags[i])
                &&& plan.worker_count == workers_for(connections, flags.len() as int)
                &&& board.wf()
                &&& board.url@ == url@
                &&& board.total_size == total_size
                &&& board.chunk_size == chunk_size
                &&& headers::opt_text(board.etag) == headers::opt_text(probe.etag)
                &&& headers::opt_text(board.last_modified) == headers::opt_text(
                    probe.last_modified,
                )
                &&& board.completed@ == flags
                &&& chunks::are_chunks(
                    board.queue@,
                    chunks::missing_chunks(flags),
                    total_size as int,
                    chunk_size as int,
                )
                &&& board.downloaded == chunks::completed_size(
                    flags,
                    total_size as int,
                    chunk_size as int,
                )
                &&& board.active_workers == 0
                &&& board.saves_state == resume
                &&& board.flush_interval == flush_interval
                &&& board.last_flush == now
                &&& board.in_flight@ == Set::<int>::empty()
                &&& board.lost@ == Set::<int>::empty()
            },
            _ => false,
        },
{
    let total_size: u64 = match probe.total_size {
        Some(size) => size,
        None => {
            return Err(DlError::InvalidResponse("missing content length".to_string()));
        },
    };
    let found: Option<InlineDownloadState> = if resume {
        match read {
            Ok(found) => found,
            Err(error) => {
                return Err(error);
            },
        }
    } else {
        None
    };
    let total_chunks: usize = chunks::chunk_count(total_size, chunk_size);
    let mut resumed: bool = false;
    let ghost before = opt_state(found);
    let completed: Vec<bool> = match found {
        Some(state) => {
            if state.is_compatible_with(
                DownloadKind::Http,
                url,
                total_size,
                chunk_size,
                &probe.etag,
                &probe.last_modified,
            ) && state.completed_chunks.len() == total_chunks {
                resumed = true;
                state.completed_chunks
            } else {
                vec![false; total_chunks]
            }
        },
        None => vec![false; total_chunks],
    };
    let ghost flags = starting_chunks(before, url@, total_size, chunk_size, probe@);
    assert(completed@ =~= flags);
    let downloaded: u64 = chunks::completed_bytes(&completed, total_size, chunk_size);
    let completed_count: usize = chunks::count_completed(&completed);
    proof {
        chunks::lemma_count_bound(completed@);
    }
    let segments = chunks::build_segments(total_size, chunk_size, &completed);
    let mut queue: VecDeque<Segment> = VecDeque::new();
    let mut i: usize = 0;
    while i < segments.len()
        invariant
            i <= segments.len(),
            queue@ == segments@.take(i as int),
        decreases segments.len() - i,
    {
        proof {
            assert(segments@.take(i + 1) =~= segments@.take(i as int).push(segments@[i as int]));
        }
        queue.push_back(segments[i]);
        i = i + 1;
    }
    proof {
        assert(segments@.take(segments@.len() as int) =~= segments@);
        chunks::lemma_missing_chunks(completed@);
        let indices = chunks::missing_chunks(completed@);
        assert forall|k: int| 0 <= k < queue@.len() implies (#[trigger] queue@[k]).index
            == indices[k] by {
            assert(chunks::is_chunk(queue@[k], indices[k], total_size as int, chunk_size as int));
        }
        assert forall|c: int| 0 <= c < completed@.len() && !#[trigger] completed@[c] implies waits(
            queue@,
            c,
        ) by {
            let k = choose|k: int| 0 <= k < indices.len() && indices[k] == c;
            assert(queue@[k].index == c);
        }
    }
    let worker_count: usize = if total_chunks < 1 || connections < 1 {
        1
    } else if connections < total_chunks {
        connections
    } else {
        total_chunks
    };
    let board = TransferBoard {
        url: url.clone(),
        total_size,
        chunk_size,
        etag: types::copy_text(&probe.etag),
        last_modified: types::copy_text(&probe.last_modified),
        queue,
        completed,
        downloaded,
        completed_count,
        active_workers: 0,
        saves_state: resume,
        flush_interval,
        last_flush: now,
        in_flight: Ghost(Set::empty()),
        lost: Ghost(Set::empty()),
    };
    Ok(ParallelPlan { board, resumed, complete: completed_count == total_chunks, worker_count })
}

/// A saved state whose source, size, chunk size and validators are the present ones is gone on
/// from, with the chunks that it has, whatever the validators are; a validator that is missing on
/// one side stands against nothing.
pub proof fn law_equal_state_is_gone_on_from(
    saved: StateView,
    url: Seq<char>,
    total_size: u64,
    chunk_size: u64,
    probe: ProbeView,
)
    requires
        chunk_size > 0,
        saved.version == 1,
        saved.kind == DownloadKind::Http,
        saved.source == url,
        saved.total_size == total_size,
        saved.chunk_size == chunk_size,
        saved.etag == probe.etag || saved.etag is None || probe.etag is None,
        saved.last_modified == probe.last_modified || saved.last_modified is None
            || probe.last_modified is None,
        total_size <= saved.completed_chunks.len() * chunk_size < total_size + chunk_size,
    ensures
        resumes(plan_state(true, Ok(Some(saved)))->Ok_0, url, total_size, chunk_size, probe),
        starting_chunks(
            plan_state(true, Ok(Some(saved)))->Ok_0,
            url,
            total_size,
            chunk_size,
            probe,
        ) == saved.completed_chunks,
{
    let count = chunks::chunk_total(total_size as int, chunk_size as int);
    let len = saved.completed_chunks.len() as int;
    chunks::law_chunk_count_is_the_least_that_covers(total_size, chunk_size);
    assert((count - 1) * chunk_size == count * chunk_size - chunk_size) by (nonlinear_arith);
    assert(len == count) by (nonlinear_arith)
        requires
            chunk_size > 0,
            total_size <= len * chunk_size < total_size + chunk_size,
            total_size <= count * chunk_size,
            count * chunk_size < total_size + chunk_size || (total_size == 0 && count == 0),
    ;
}

/// What could not be read is handed on where it counts, and without a state nothing is gone on
/// from.
pub proof fn law_plan_rests_on_what_was_read(
    error: DlErrorView,
    url: Seq<char>,
    total_size: u64,
    chunk_size: u64,
    probe: ProbeView,
)
    ensures
        plan_state(true, Err(error)) == Err::<Option<StateView>, DlErrorView>(error),
        plan_state(true, Ok(None)) == Ok::<Option<StateView>, DlErrorView>(None),
        plan_state(false, Err(error)) == Ok::<Option<StateView>, DlErrorView>(None),
        !resumes(None, url, total_size, chunk_size, probe),
{
}

/// What is saved of a board tells the whole of it, so that it is not gone on from for a file that
/// has changed since.
pub proof fn law_saved_board_tells_the_board(
    board: TransferBoard,
    unix_secs: u64,
    chunk_size: u64,
    probe: ProbeView,
)
    ensures
        ({
            let saved = saved_board(board, unix_secs);
            &&& saved.version == 1
            &&& saved.source == board.url@
            &&& saved.total_size == board.total_size
            &&& saved.chunk_size == board.chunk_size
            &&& saved.completed_chunks == board.completed@
            &&& saved.updated_at_unix_secs == unix_secs
            &&& board.etag is Some && probe.etag is Some && board.etag->Some_0@
                != probe.etag->Some_0 ==> !resumes(
                Some(saved),
                board.url@,
                board.total_size,
                chunk_size,
                probe,
            )
            &&& board.last_modified is Some && probe.last_modified is Some
                && board.last_modified->Some_0@ != probe.last_modified->Some_0 ==> !resumes(
                Some(saved),
                board.url@,
                board.total_size,
                chunk_size,
                probe,
            )
        }),
{
}

/// The report on a download that is running tells what the board has counted.
pub proof fn law_running_reports_tell_the_counts(
    board: TransferBoard,
    phase: DownloadPhase,
    output_path: Seq<char>,
)
    requires
        phase == DownloadPhase::Downloading || phase == DownloadPhase::PersistingState,
    ensures
        ({
            let report = board_report(board, phase, output_path);
            &&& report.kind == DownloadKind::Http
            &&& report.phase == phase
            &&& report.source == board.url@
            &&& report.output_path == output_path
            &&& report.downloaded_bytes == board.downloaded
            &&& report.total_bytes == Some(board.total_size)
            &&& report.active_workers == board.active_workers
            &&& report.completed_chunks == Some(board.completed_count)
            &&& report.total_chunks == Some(board.completed.len())
        }),
{
}

/// There are as many workers as connections, as far as there are chunks for them.
pub proof fn law_there_is_a_worker_for_each_connection(connections: usize, total_chunks: int)
    requires
        connections >= 1,
        total_chunks >= 1,
    ensures
        workers_for(connections, total_chunks) <= connections,
        workers_for(connections, total_chunks) <= total_chunks,
        workers_for(connections, total_chunks) == connections || workers_for(
            connections,
            total_chunks,
        ) == total_chunks,
{
}

/// A free worker is sent for the waiting segment that comes first in the file, which is not
/// complete, and stops only if none waits.
pub proof fn law_first_waiting_segment_is_fetched(
    before: TransferBoard,
    after: TransferBoard,
    action: WorkerAction,
    other: int,
)
    requires
        before.wf(),
        worker_next(before, WorkerEvent::Ready, after, action),
        0 <= other < before.queue@.len(),
    ensures
        action is Fetch,
        action->Fetch_0.start <= before.queue@[other].start,
        !before.completed@[action->Fetch_0.index as int],
        !before.in_flight@.contains(action->Fetch_0.index as int),
        after.in_flight@.contains(action->Fetch_0.index as int),
        after.active_workers == before.active_workers + 1,
        after.completed@ == before.completed@,
        after.downloaded == before.downloaded,
        after.queue@ == before.queue@.skip(1),
        after.same_download(before),
{
    let first = before.queue@[0];
    assert(first.index <= before.queue@[other].index);
    vstd::arithmetic::mul::lemma_mul_inequality(
        first.index as int,
        before.queue@[other].index as int,
        before.chunk_size as int,
    );
}

/// A segment that was fetched makes its own chunk complete and no other, and the count of those
/// that are complete goes on by one and is handed on.
pub proof fn law_fetched_segment_is_complete(
    before: TransferBoard,
    segment: Segment,
    now: u64,
    after: TransferBoard,
    action: WorkerAction,
    chunk: int,
)
    requires
        before.wf(),
        before.in_flight@.contains(segment.index as int),
        worker_next(before, WorkerEvent::Fetched { segment, outcome: Ok(()), now }, after, action),
        0 <= chunk < before.completed@.len(),
    ensures
        after.completed@.len() == before.completed@.len(),
        after.completed@[chunk] == (before.completed@[chunk] || chunk == segment.index),
        !after.in_flight@.contains(segment.index as int),
        after.completed_count == before.completed_count + 1,
        after.active_workers == before.active_workers - 1,
        after.downloaded == before.downloaded,
        after.queue@ == before.queue@,
        after.same_download(before),
        action is Save || action is Report,
        action is Save ==> action->Save_completed_count == before.completed_count + 1,
        action is Report ==> action->Report_completed_count == before.completed_count + 1,
{
}

/// The state is saved with the last segment, and then for good, and whenever it was not saved for
/// the interval; never otherwise, and never where it is not to be.
pub proof fn law_due_state_is_saved(
    before: TransferBoard,
    segment: Segment,
    now: u64,
    after: TransferBoard,
    action: WorkerAction,
)
    requires
        before.wf(),
        before.in_flight@.contains(segment.index as int),
        worker_next(before, WorkerEvent::Fetched { segment, outcome: Ok(()), now }, after, action),
    ensures
        ({
            let last = forall|i: int|
                0 <= i < before.completed@.len() ==> i == segment.index
                    || #[trigger] before.completed@[i];
            let passed = now >= before.last_flush + before.flush_interval || before.flush_interval
                == 0;
            &&& action is Save <==> before.saves_state && (last || passed)
            &&& action is Save ==> action->sync_to_disk == last && after.last_flush == now
            &&& action is Report ==> after.last_flush == before.last_flush
        }),
{
    let last = forall|i: int|
        0 <= i < before.completed@.len() ==> i == segment.index || #[trigger] before.completed@[i];
    let whole = forall|i: int| 0 <= i < after.completed@.len() ==> #[trigger] after.completed@[i];
    if last {
        assert forall|i: int| 0 <= i < after.completed@.len() implies
            #[trigger] after.completed@[i] by {
            assert(i == segment.index || before.completed@[i]);
        }
    }
    if whole {
        assert forall|i: int| 0 <= i < before.completed@.len() implies i == segment.index
            || #[trigger] before.completed@[i] by {
            assert(after.completed@[i]);
        }
    }
}

/// A segment that could not be fetched, or a state that could not be saved, ends its worker with
/// that error, and makes nothing complete.
pub proof fn law_failures_end_their_worker(
    before: TransferBoard,
    segment: Segment,
    now: u64,
    error: DlError,
    count: usize,
    after: TransferBoard,
    action: WorkerAction,
)
    ensures
        worker_next(
            before,
            WorkerEvent::Fetched { segment, outcome: Err(error), now },
            after,
            action,
        ) ==> {
            &&& action == WorkerAction::Fail(error)
            &&& after.completed@ == before.completed@
            &&& after.queue@ == before.queue@
            &&& after.downloaded == before.downloaded
            &&& after.active_workers == before.active_workers - 1
            &&& !after.in_flight@.contains(segment.index as int)
            &&& after.lost@.contains(segment.index as int)
            &&& after.same_download(before)
        },
        worker_next(
            before,
            WorkerEvent::Saved { completed_count: count, outcome: Err(error) },
            after,
            action,
        ) ==> action == WorkerAction::Fail(error) && after == before,
        worker_next(
            before,
            WorkerEvent::Saved { completed_count: count, outcome: Ok(()) },
            after,
            action,
        ) ==> action == (WorkerAction::Report { completed_count: count }) && after == before,
{
}

/// Only a state of this file, in chunks of this size, as many as the file has, is gone on from;
/// else every chunk of the file is still to come.
pub proof fn law_without_its_state_all_is_missing(
    saved: Option<StateView>,
    url: Seq<char>,
    total_size: u64,
    chunk_size: u64,
    probe: ProbeView,
    at: u64,
)
    requires
        chunk_size > 0,
        at < total_size,
    ensures
        resumes(saved, url, total_size, chunk_size, probe) ==> {
            let state = saved->Some_0;
            &&& saved is Some
            &&& state.version == 1
            &&& state.kind == DownloadKind::Http
            &&& state.source == url
            &&& state.total_size == total_size
            &&& state.chunk_size == chunk_size
            &&& state.etag is None || probe.etag is None || state.etag == probe.etag
            &&& state.last_modified is None || probe.last_modified is None || state.last_modified
                == probe.last_modified
            &&& total_size <= state.completed_chunks.len() * chunk_size < total_size + chunk_size
        },
        ({
            let flags = starting_chunks(saved, url, total_size, chunk_size, probe);
            &&& 0 <= (at as int / chunk_size as int) < flags.len()
            &&& !resumes(saved, url, total_size, chunk_size, probe) ==> !flags[at as int
                / chunk_size as int]
        }),
{
    let count = chunks::chunk_total(total_size as int, chunk_size as int);
    chunks::law_chunk_count_is_the_least_that_covers(total_size, chunk_size);
    chunks::law_chunks_tile_the_file(total_size, chunk_size, at);
    assert((count - 1) * chunk_size == count * chunk_size - chunk_size) by (nonlinear_arith);
}

/// The reports that close a download tell of the whole file, and of no worker.
pub proof fn law_last_reports_tell_of_the_whole(
    board: TransferBoard,
    phase: DownloadPhase,
    output_path: Seq<char>,
)
    requires
        phase == DownloadPhase::Finalizing || phase == DownloadPhase::Complete,
    ensures
        ({
            let report = board_report(board, phase, output_path);
            &&& report.phase == phase
            &&& report.source == board.url@
            &&& report.output_path == output_path
            &&& report.downloaded_bytes == board.total_size
            &&& report.total_bytes == Some(board.total_size)
            &&& report.active_workers == 0
            &&& report.completed_chunks == Some(board.completed.len())
            &&& report.total_chunks == Some(board.completed.len())
        }),
{
}

/// What is planned for a file: each byte waits to be fetched exactly if its chunk is not complete
/// yet, and only where an earlier download is to be taken up is anything complete.
pub proof fn law_plan_fetches_what_is_missing(
    url: String,
    probe: HttpProbe,
    connections: usize,
    chunk_size: u64,
    flush_interval: u64,
    resume: bool,
    read: Result<Option<InlineDownloadState>, DlError>,
    now: u64,
    r: Result<ParallelPlan, DlError>,
    at: u64,
)
    requires
        call_ensures(
            download_parallel,
            (&url, &probe, connections, chunk_size, flush_interval, resume, read, now),
            r,
        ),
        chunk_size > 0,
    ensures
        r is Ok <==> probe.total_size is Some && (!resume || read is Ok),
        probe.total_size is Some && resume && read is Err ==> r->Err_0@ == read->Err_0@,
        r is Ok && at < probe.total_size->Some_0 ==> {
            let board = r->Ok_0.board;
            let chunk = at as int / chunk_size as int;
            &&& board.url@ == url@
            &&& Some(board.total_size) == probe.total_size
            &&& board.chunk_size == chunk_size
            &&& headers::opt_text(board.etag) == headers::opt_text(probe.etag)
            &&& headers::opt_text(board.last_modified) == headers::opt_text(probe.last_modified)
            &&& board.saves_state == resume
            &&& board.flush_interval == flush_interval
            &&& board.last_flush == now
            &&& 0 <= chunk < board.completed@.len()
            &&& (exists|k: int|
                0 <= k < board.queue@.len() && (#[trigger] board.queue@[k]).start <= at
                    <= board.queue@[k].end) <==> !board.completed@[chunk]
            &&& !resume ==> !board.completed@[chunk] && !r->Ok_0.resumed
            &&& !board.completed@[chunk] ==> !r->Ok_0.complete
            &&& r->Ok_0.worker_count >= 1
            &&& connections >= 1 ==> r->Ok_0.worker_count <= connections
            &&& r->Ok_0.worker_count <= board.completed@.len()
            &&& r->Ok_0.worker_count == connections || r->Ok_0.worker_count
                == board.completed@.len() || connections == 0
        },
{
    if r is Ok {
        let total_size = probe.total_size->Some_0;
        let found = plan_state(resume, read_view(read))->Ok_0;
        if at < total_size {
            law_without_its_state_all_is_missing(
                found,
                url@,
                total_size,
                chunk_size,
                probe@,
                at,
            );
            chunks::law_segments_are_the_missing_bytes(
                r->Ok_0.board.queue@,
                r->Ok_0.board.completed@,
                total_size,
                chunk_size,
                at,
            );
        }
    }
}

/// A plan for a file whose state has every field of the download starts from the chunks that the
/// state has.
pub proof fn law_plan_starts_from_an_equal_state(
    url: String,
    probe: HttpProbe,
    connections: usize,
    chunk_size: u64,
    flush_interval: u64,
    state: InlineDownloadState,
    now: u64,
    r: Result<ParallelPlan, DlError>,
)
    requires
        call_ensures(
            download_parallel,
            (
                &url,
                &probe,
                connections,
                chunk_size,
                flush_interval,
                true,
                Ok(Some(state)),
                now,
            ),
            r,
        ),
        chunk_size > 0,
        state.version == 1,
        state.kind == DownloadKind::Http,
        state.source@ == url@,
        Some(state.total_size) == probe.total_size,
        state.chunk_size == chunk_size,
        headers::opt_text(state.etag) == headers::opt_text(probe.etag),
        headers::opt_text(state.last_modified) == headers::opt_text(probe.last_modified),
        state.total_size <= state.completed_chunks@.len() * chunk_size < state.total_size
            + chunk_size,
    ensures
        r is Ok,
        r->Ok_0.resumed,
        r->Ok_0.board.completed@ == state.completed_chunks@,
        r->Ok_0.complete <==> !state.completed_chunks@.contains(false),
{
    law_equal_state_is_gone_on_from(state@, url@, state.total_size, chunk_size, probe@);
    let flags = state.completed_chunks@;
    if flags.contains(false) {
        let i = choose|i: int| 0 <= i < flags.len() && flags[i] == false;
        assert(!flags[i]);
    }
}

/// What ended a worker is what its download hears of: its own error, or why it was lost.
pub proof fn law_worker_outcomes_are_handed_on(
    joined: Result<Result<(), DlError>, String>,
    outcome: Result<(), DlError>,
)
    requires
        call_ensures(worker_outcome, (joined,), outcome),
    ensures
        outcome is Ok <==> joined is Ok && joined->Ok_0 is Ok,
        joined is Ok && joined->Ok_0 is Err ==> outcome->Err_0 == joined->Ok_0->Err_0,
        joined is Err ==> outcome->Err_0@ == DlErrorView::Join(joined->Err_0@),
{
}

/// What a worker does changes nothing of what is downloaded, nor of how it is saved.
pub proof fn law_workers_keep_the_download(
    before: TransferBoard,
    event: WorkerEvent,
    after: TransferBoard,
    action: WorkerAction,
)
    requires
        worker_next(before, event, after, action),
    ensures
        after.url == before.url,
        after.total_size == before.total_size,
        after.chunk_size == before.chunk_size,
        after.etag == before.etag,
        after.last_modified == before.last_modified,
        after.saves_state == before.saves_state,
        after.flush_interval == before.flush_interval,
        after.completed@.len() == before.completed@.len(),
        after.downloaded == before.downloaded,
{
}

/// The report on a segment tells the count that came with it, and else what the board has.
pub proof fn law_segment_reports_tell_their_count(
    board: TransferBoard,
    completed_count: usize,
    output_path: &str,
    report: Option<DownloadProgress>,
)
    requires
        call_ensures(
            TransferBoard::report_segment,
            (&board, true, completed_count, output_path),
            report,
        ),
    ensures
        report is Some,
        report->Some_0.phase == DownloadPhase::Downloading,
        report->Some_0.source@ == board.url@,
        report->Some_0.output_path@ == output_path@,
        report->Some_0.downloaded_bytes == board.downloaded,
        report->Some_0.total_bytes == Some(board.total_size),
        report->Some_0.active_workers == board.active_workers,
        report->Some_0.completed_chunks == Some(completed_count),
        report->Some_0.total_chunks == Some(board.completed.len()),
{
}

/// What is said at the end of a download is of the whole file.
pub proof fn law_summary_is_of_the_whole_file(
    board: TransferBoard,
    output_path: &str,
    resumed: bool,
    summary: DownloadSummary,
)
    requires
        call_ensures(TransferBoard::summary, (&board, output_path, resumed), summary),
    ensures
        summary.kind == DownloadKind::Http,
        summary.source@ == board.url@,
        summary.output_path@ == output_path@,
        summary.downloaded_bytes == board.total_size,
        summary.total_bytes == board.total_size,
        summary.resumed == resumed,
{
}

} // verus!
