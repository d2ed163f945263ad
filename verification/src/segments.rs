//! The course of a download in segments, from its plan to its outcome.
use crate::error::{DlError, DlErrorView};
use crate::parallel;
use crate::parallel::{ParallelPlan, TransferBoard};
use crate::types::{DownloadKind, DownloadPhase, DownloadSummary, SummaryView};
use vstd::prelude::*;
use vstd::string::*;

verus! {

/// What a download in segments waits for.
#[derive(Clone, Copy, Debug, PartialEq, Eq, Structural)]
pub enum RunStage {
    /// Its start.
    Planned,
    /// Room for the whole file.
    MakingRoom,
    /// The end of a worker; so many are at work.
    Working { running: usize },
    /// The file without its footer.
    Clearing,
    /// Nothing.
    Ended,
}

/// A download in segments on its way.
#[derive(Clone, Copy, Debug, PartialEq, Eq, Structural)]
pub struct SegmentsRun {
    pub stage: RunStage,
    /// The download goes on from a saved state.
    pub resumed: bool,
    /// Nothing was left to fetch from the start.
    pub complete: bool,
    pub worker_count: usize,
}

/// What happened outside.
#[derive(Debug)]
pub enum RunEvent {
    Started,
    RoomMade(Result<(), DlError>),
    WorkerEnded(Result<(), DlError>),
    Cleared(Result<(), DlError>),
}

pub enum RunEventView {
    Started,
    RoomMade(Result<(), DlErrorView>),
    WorkerEnded(Result<(), DlErrorView>),
    Cleared(Result<(), DlErrorView>),
}

impl View for RunEvent {
    type V = RunEventView;

    open spec fn view(&self) -> RunEventView {
        match *self {
            RunEvent::Started => RunEventView::Started,
            RunEvent::RoomMade(Ok(())) => RunEventView::RoomMade(Ok(())),
            RunEvent::RoomMade(Err(error)) => RunEventView::RoomMade(Err(error@)),
            RunEvent::WorkerEnded(Ok(())) => RunEventView::WorkerEnded(Ok(())),
            RunEvent::WorkerEnded(Err(error)) => RunEventView::WorkerEnded(Err(error@)),
            RunEvent::Cleared(Ok(())) => RunEventView::Cleared(Ok(())),
            RunEvent::Cleared(Err(error)) => RunEventView::Cleared(Err(error@)),
        }
    }
}

/// What is to be done outside next.
#[derive(Debug, PartialEq, Eq)]
pub enum RunAction {
    /// Make the file anew, with this length.
    MakeRoom { len: u64 },
    StartWorkers { count: usize },
    AwaitWorker,
    /// Cut the footer off behind this length.
    Clear { len: u64 },
    Finish(DownloadSummary),
    /// Stop every worker; the download has failed.
    Fail(DlError),
}

pub enum RunActionView {
    MakeRoom { len: u64 },
    StartWorkers { count: usize },
    AwaitWorker,
    Clear { len: u64 },
    Finish(SummaryView),
    Fail(DlErrorView),
}

impl View for RunAction {
    type V = RunActionView;

    open spec fn view(&self) -> RunActionView {
        match *self {
            RunAction::MakeRoom { len } => RunActionView::MakeRoom { len },
            RunAction::StartWorkers { count } => RunActionView::StartWorkers { count },
            RunAction::AwaitWorker => RunActionView::AwaitWorker,
            RunAction::Clear { len } => RunActionView::Clear { len },
            RunAction::Finish(summary) => RunActionView::Finish(summary@),
            RunAction::Fail(error) => RunActionView::Fail(error@),
        }
    }
}

/// The phases to report of the board, in order, and what is to be done after that.
#[derive(Debug, PartialEq, Eq)]
pub struct RunStep {
    pub reports: Vec<DownloadPhase>,
    pub action: RunAction,
}

pub struct RunStepView {
    pub reports: Seq<DownloadPhase>,
    pub action: RunActionView,
}

impl View for RunStep {
    type V = RunStepView;

    open spec fn view(&self) -> RunStepView {
        RunStepView { reports: self.reports@, action: self.action@ }
    }
}

/// The outcome of a download in segments.
pub open spec fn board_summary(
    board: TransferBoard,
    output_path: Seq<char>,
    resumed: bool,
) -> SummaryView {
    SummaryView {
        kind: DownloadKind::Http,
        source: board.url@,
        output_path,
        total_bytes: board.total_size,
        downloaded_bytes: board.total_size,
        resumed,
    }
}

pub open spec fn fail_run(run: SegmentsRun, error: DlErrorView) -> (SegmentsRun, RunStepView) {
    (
        SegmentsRun { stage: RunStage::Ended, ..run },
        RunStepView { reports: Seq::empty(), action: RunActionView::Fail(error) },
    )
}

/// The file is ready for data: the workers start, unless nothing is left to fetch.
pub open spec fn open_run(run: SegmentsRun, board: TransferBoard) -> (SegmentsRun, RunStepView) {
    if run.complete {
        (
            SegmentsRun { stage: RunStage::Clearing, ..run },
            RunStepView {
                reports: seq![DownloadPhase::Downloading, DownloadPhase::Finalizing],
                action: RunActionView::Clear { len: board.total_size },
            },
        )
    } else {
        (
            SegmentsRun { stage: RunStage::Working { running: run.worker_count }, ..run },
            RunStepView {
                reports: seq![DownloadPhase::Downloading],
                action: RunActionView::StartWorkers { count: run.worker_count },
            },
        )
    }
}

/// The event is the one that the download waits for.
pub open spec fn run_expects(stage: RunStage, event: RunEventView) -> bool {
    match stage {
        RunStage::Planned => event is Started,
        RunStage::MakingRoom => event is RoomMade,
        RunStage::Working { running } => event is WorkerEnded,
        RunStage::Clearing => event is Cleared,
        RunStage::Ended => false,
    }
}

/// What a download in segments is, reports and does after an event that it waits for. The first
/// worker that fails is its end; when the last one is done, the footer goes and the file is there.
pub open spec fn run_next(
    run: SegmentsRun,
    board: TransferBoard,
    output_path: Seq<char>,
    event: RunEventView,
) -> (SegmentsRun, RunStepView) {
    match (run.stage, event) {
        (RunStage::Planned, RunEventView::Started) => if run.resumed {
            open_run(run, board)
        } else {
            (
                SegmentsRun { stage: RunStage::MakingRoom, ..run },
                RunStepView {
                    reports: Seq::empty(),
                    action: RunActionView::MakeRoom { len: board.total_size },
                },
            )
        },
        (RunStage::MakingRoom, RunEventView::RoomMade(Ok(()))) => open_run(run, board),
        (RunStage::MakingRoom, RunEventView::RoomMade(Err(error))) => fail_run(run, error),
        (RunStage::Working { running }, RunEventView::WorkerEnded(Ok(()))) => if running > 1 {
            (
                SegmentsRun {
                    stage: RunStage::Working { running: (running - 1) as usize },
                    ..run
                },
                RunStepView { reports: Seq::empty(), action: RunActionView::AwaitWorker },
            )
        } else {
            (
                SegmentsRun { stage: RunStage::Clearing, ..run },
                RunStepView {
                    reports: seq![DownloadPhase::Finalizing],
                    action: RunActionView::Clear { len: board.total_size },
                },
            )
        },
        (RunStage::Working { running }, RunEventView::WorkerEnded(Err(error))) => fail_run(
            run,
            error,
        ),
        (RunStage::Clearing, RunEventView::Cleared(Ok(()))) => (
            SegmentsRun { stage: RunStage::Ended, ..run },
            RunStepView {
                reports: seq![DownloadPhase::Complete],
                action: RunActionView::Finish(board_summary(board, output_path, run.resumed)),
            },
        ),
        (RunStage::Clearing, RunEventView::Cleared(Err(error))) => fail_run(run, error),
        _ => arbitrary(),
    }
}

/// Every chunk of the file is there.
pub open spec fn all_there(board: TransferBoard) -> bool {
    forall|i: int| 0 <= i < board.completed@.len() ==> #[trigger] board.completed@[i]
}

/// The board is as far as the event says: the footer goes only from a file that is all there.
pub open spec fn board_agrees(
    run: SegmentsRun,
    board: TransferBoard,
    output_path: Seq<char>,
    event: RunEventView,
) -> bool {
    let action = run_next(run, board, output_path, event).1.action;
    action is Clear || action is Finish ==> all_there(board)
}

impl SegmentsRun {
    /// A download in segments that is about to start.
    pub fn new(plan: &ParallelPlan) -> (r: SegmentsRun)
        ensures
            r == (SegmentsRun {
                stage: RunStage::Planned,
                resumed: plan.resumed,
                complete: plan.complete,
                worker_count: plan.worker_count,
            }),
    {
        SegmentsRun {
            stage: RunStage::Planned,
            resumed: plan.resumed,
            complete: plan.complete,
            worker_count: plan.worker_count,
        }
    }

    fn fail(&mut self, error: DlError) -> (r: RunStep)
        ensures
            (*final(self), r@) == fail_run(*old(self), error@),
    {
        self.stage = RunStage::Ended;
        let reports: Vec<DownloadPhase> = Vec::new();
        RunStep { reports, action: RunAction::Fail(error) }
    }

    fn open(&mut self, board: &TransferBoard) -> (r: RunStep)
        ensures
            (*final(self), r@) == open_run(*old(self), *board),
    {
        let mut reports: Vec<DownloadPhase> = Vec::new();
        reports.push(DownloadPhase::Downloading);
        if self.complete {
            reports.push(DownloadPhase::Finalizing);
            self.stage = RunStage::Clearing;
            let action = RunAction::Clear { len: board.total_size };
            assert(reports@ =~= seq![DownloadPhase::Downloading, DownloadPhase::Finalizing]);
            RunStep { reports, action }
        } else {
            self.stage = RunStage::Working { running: self.worker_count };
            let action = RunAction::StartWorkers { count: self.worker_count };
            assert(reports@ =~= seq![DownloadPhase::Downloading]);
            RunStep { reports, action }
        }
    }
}

/// Takes a download in segments on after an event that it waits for; what is to be reported and
/// done next.
pub fn run_segments(
    run: &mut SegmentsRun,
    board: &TransferBoard,
    output_path: &str,
    event: RunEvent,
) -> (r: RunStep)
    requires
        run_expects(old(run).stage, event@),
        board_agrees(*old(run), *board, output_path@, event@),
    ensures
        (*final(run), r@) == run_next(*old(run), *board, output_path@, event@),
{
    let mut reports: Vec<DownloadPhase> = Vec::new();
    match event {
        RunEvent::Started => {
            if run.resumed {
                run.open(board)
            } else {
                run.stage = RunStage::MakingRoom;
                RunStep { reports, action: RunAction::MakeRoom { len: board.total_size } }
            }
        },
        RunEvent::RoomMade(Ok(())) => run.open(board),
        RunEvent::RoomMade(Err(error)) => run.fail(error),
        RunEvent::WorkerEnded(Ok(())) => {
            let running: usize = match run.stage {
                RunStage::Working { running } => running,
                _ => 0,
            };
            if running > 1 {
                run.stage = RunStage::Working { running: running - 1 };
                RunStep { reports, action: RunAction::AwaitWorker }
            } else {
                run.stage = RunStage::Clearing;
                reports.push(DownloadPhase::Finalizing);
                assert(reports@ =~= seq![DownloadPhase::Finalizing]);
                RunStep { reports, action: RunAction::Clear { len: board.total_size } }
            }
        },
        RunEvent::WorkerEnded(Err(error)) => run.fail(error),
        RunEvent::Cleared(Ok(())) => {
            run.stage = RunStage::Ended;
            reports.push(DownloadPhase::Complete);
            assert(reports@ =~= seq![DownloadPhase::Complete]);
            let summary = board.summary(output_path, run.resumed);
            RunStep { reports, action: RunAction::Finish(summary) }
        },
        RunEvent::Cleared(Err(error)) => run.fail(error),
    }
}

/// A download in segments after a list of events, each with the board as it then is.
pub struct RunTrace {
    pub run: SegmentsRun,
    /// Every phase that was reported, in order.
    pub reports: Seq<DownloadPhase>,
    /// The action after the last event.
    pub action: Option<RunActionView>,
}

/// Where a list of events takes a download in segments.
pub open spec fn run_trace(
    start: SegmentsRun,
    output_path: Seq<char>,
    events: Seq<(TransferBoard, RunEventView)>,
) -> RunTrace
    decreases events.len(),
{
    if events.len() == 0 {
        RunTrace { run: start, reports: Seq::empty(), action: None }
    } else {
        let before = run_trace(start, output_path, events.drop_last());
        let (run, step) = run_next(before.run, events.last().0, output_path, events.last().1);
        RunTrace { run, reports: before.reports + step.reports, action: Some(step.action) }
    }
}

/// Every event of the list is one that the download waits for and that the board agrees with.
pub open spec fn run_events(
    start: SegmentsRun,
    output_path: Seq<char>,
    events: Seq<(TransferBoard, RunEventView)>,
) -> bool
    decreases events.len(),
{
    events.len() > 0 ==> {
        let before = run_trace(start, output_path, events.drop_last()).run;
        &&& run_events(start, output_path, events.drop_last())
        &&& run_expects(before.stage, events.last().1)
        &&& board_agrees(before, events.last().0, output_path, events.last().1)
    }
}

/// A download in segments that succeeds has reported `Finalizing` and then `Complete` last, had
/// every chunk of the file at its end, and its outcome tells of the whole file.
pub proof fn law_success_closes_with_complete(
    start: SegmentsRun,
    output_path: Seq<char>,
    events: Seq<(TransferBoard, RunEventView)>,
)
    requires
        start.stage == RunStage::Planned,
        run_events(start, output_path, events),
        run_trace(start, output_path, events).action is Some,
        run_trace(start, output_path, events).action->Some_0 is Finish,
    ensures
        ({
            let reports = run_trace(start, output_path, events).reports;
            let summary = run_trace(start, output_path, events).action->Some_0->Finish_0;
            let board = events.last().0;
            &&& reports.len() >= 2
            &&& reports[reports.len() - 2] == DownloadPhase::Finalizing
            &&& reports[reports.len() - 1] == DownloadPhase::Complete
            &&& all_there(board)
            &&& summary == board_summary(board, output_path, start.resumed)
            &&& summary.downloaded_bytes == summary.total_bytes
        }),
{
    lemma_trace(start, output_path, events.drop_last());
}

/// What holds after every list of events: the closing reports come in their places.
proof fn lemma_trace(
    start: SegmentsRun,
    output_path: Seq<char>,
    events: Seq<(TransferBoard, RunEventView)>,
)
    requires
        start.stage == RunStage::Planned,
        run_events(start, output_path, events),
    ensures
        ({
            let trace = run_trace(start, output_path, events);
            &&& trace.run.resumed == start.resumed
            &&& trace.run.stage == RunStage::Clearing ==> trace.reports.len() > 0
                && trace.reports.last() == DownloadPhase::Finalizing
        }),
    decreases events.len(),
{
    if events.len() > 0 {
        lemma_trace(start, output_path, events.drop_last());
    }
}

/// The closing reports tell of the whole file, with nobody at work.
pub proof fn law_closing_reports_tell_of_the_whole_file(
    board: TransferBoard,
    phase: DownloadPhase,
    output_path: Seq<char>,
)
    requires
        phase == DownloadPhase::Finalizing || phase == DownloadPhase::Complete,
    ensures
        ({
            let report = parallel::board_report(board, phase, output_path);
            &&& report.phase == phase
            &&& report.downloaded_bytes == board.total_size
            &&& report.total_bytes == Some(board.total_size)
            &&& report.active_workers == 0
            &&& report.completed_chunks == report.total_chunks
            &&& report.total_chunks == Some(board.completed.len())
        }),
{
}

/// How many events a download in segments can still wait for, at most.
pub open spec fn run_left(run: SegmentsRun) -> int {
    match run.stage {
        RunStage::Planned => run.worker_count + 4,
        RunStage::MakingRoom => run.worker_count + 3,
        RunStage::Working { running } => running + 2,
        RunStage::Clearing => 1,
        RunStage::Ended => 0,
    }
}

/// Every event takes a download in segments nearer to its end, which is its outcome or its
/// failure.
pub proof fn law_segments_end(
    run: SegmentsRun,
    board: TransferBoard,
    output_path: Seq<char>,
    event: RunEventView,
)
    requires
        run_expects(run.stage, event),
    ensures
        ({
            let (after, step) = run_next(run, board, output_path, event);
            &&& 0 <= run_left(after) < run_left(run)
            &&& after.stage == RunStage::Ended <==> (step.action is Finish || step.action is Fail)
        }),
{
}

/// A download in segments that goes on from no saved state makes the file anew before anything is
/// written to it.
pub proof fn law_fresh_segments_make_the_file_anew(
    run: SegmentsRun,
    board: TransferBoard,
    output_path: Seq<char>,
)
    requires
        run.stage == RunStage::Planned,
        !run.resumed,
    ensures
        run_next(run, board, output_path, RunEventView::Started).1.action == (
        RunActionView::MakeRoom { len: board.total_size }),
{
}

/// A download in segments that goes on from a saved state never makes its file anew: the workers
/// start on it at once, all of them, or the footer goes if nothing is left to fetch.
pub proof fn law_resumed_segments_keep_the_file(
    run: SegmentsRun,
    board: TransferBoard,
    output_path: Seq<char>,
)
    requires
        run.stage == RunStage::Planned,
        run.resumed,
    ensures
        ({
            let step = run_next(run, board, output_path, RunEventView::Started).1;
            &&& !run.complete ==> step.action == (RunActionView::StartWorkers {
                count: run.worker_count,
            })
            &&& run.complete ==> step.action == (RunActionView::Clear { len: board.total_size })
            &&& step.reports.len() > 0 && step.reports[0] == DownloadPhase::Downloading
        }),
{
}

/// The file that is made anew has room for all of the download, and then all the workers start.
pub proof fn law_workers_start_when_there_is_room(
    run: SegmentsRun,
    board: TransferBoard,
    output_path: Seq<char>,
)
    requires
        run.stage == RunStage::MakingRoom,
        !run.complete,
    ensures
        ({
            let (after, step) = run_next(run, board, output_path, RunEventView::RoomMade(Ok(())));
            &&& step.action == (RunActionView::StartWorkers { count: run.worker_count })
            &&& after.stage == (RunStage::Working { running: run.worker_count })
        }),
{
}

/// Every worker is waited for, and only then the footer is cut off, behind the last byte of the
/// file.
pub proof fn law_every_worker_is_waited_for(
    run: SegmentsRun,
    board: TransferBoard,
    output_path: Seq<char>,
    running: usize,
)
    requires
        run.stage == (RunStage::Working { running }),
        running >= 1,
    ensures
        ({
            let (after, step) = run_next(
                run,
                board,
                output_path,
                RunEventView::WorkerEnded(Ok(())),
            );
            &&& step.action is AwaitWorker <==> running > 1
            &&& step.action == (RunActionView::Clear { len: board.total_size }) <==> running == 1
            &&& after.stage is Working ==> after.stage->running + 1 == running
        }),
{
}

/// Whatever fails in a download in segments is what it fails with.
pub proof fn law_run_fails_with_its_first_error(
    run: SegmentsRun,
    board: TransferBoard,
    output_path: Seq<char>,
    error: DlErrorView,
)
    ensures
        run.stage == RunStage::MakingRoom ==> run_next(
            run,
            board,
            output_path,
            RunEventView::RoomMade(Err(error)),
        ).1.action == RunActionView::Fail(error),
        run.stage is Working ==> run_next(
            run,
            board,
            output_path,
            RunEventView::WorkerEnded(Err(error)),
        ).1.action == RunActionView::Fail(error),
        run.stage == RunStage::Clearing ==> run_next(
            run,
            board,
            output_path,
            RunEventView::Cleared(Err(error)),
        ).1.action == RunActionView::Fail(error),
{
}

/// The outcome tells the source, the place and the size of the file, and whether it was gone on
/// with.
pub proof fn law_outcome_tells_of_the_board(
    run: SegmentsRun,
    board: TransferBoard,
    output_path: Seq<char>,
)
    requires
        run.stage == RunStage::Clearing,
    ensures
        ({
            let action = run_next(
                run,
                board,
                output_path,
                RunEventView::Cleared(Ok(())),
            ).1.action;
            &&& action is Finish
            &&& action->Finish_0.source == board.url@
            &&& action->Finish_0.output_path == output_path
            &&& action->Finish_0.total_bytes == board.total_size
            &&& action->Finish_0.downloaded_bytes == board.total_size
            &&& action->Finish_0.resumed == run.resumed
        }),
{
}

} // verus!
