//! What the workers of a download in segments bring about together.
use crate::chunks;
use crate::chunks::Segment;
use crate::parallel;
use crate::parallel::{TransferBoard, WorkerAction, WorkerEvent};
use crate::segments;
use vstd::prelude::*;

verus! {

/// The board at a moment, and what each worker was last told to do, if anything.
pub struct CrewMoment {
    pub board: TransferBoard,
    pub last: Seq<Option<WorkerAction>>,
}

/// What happens between two moments.
pub enum CrewStep {
    /// A worker hands in an event and is told what to do.
    Worker { worker: int, event: WorkerEvent, action: WorkerAction },
    /// Bytes that came in are counted.
    Received,
}

/// The event is one that a worker hands in after what it was last told: it starts free, comes back
/// with the segment that it was sent for, and hands in nothing after it was told to stop.
pub open spec fn follows(last: Option<WorkerAction>, event: WorkerEvent) -> bool {
    match (last, event) {
        (None, WorkerEvent::Ready) => true,
        (Some(WorkerAction::Fetch(sent)), WorkerEvent::Fetched { segment, outcome, now }) => segment
            == sent,
        (
            Some(WorkerAction::Save { completed_count, sync_to_disk }),
            WorkerEvent::Saved { completed_count: count, outcome },
        ) => count == completed_count,
        (Some(WorkerAction::Report { completed_count }), WorkerEvent::Ready) => true,
        _ => false,
    }
}

/// One moment leads to the next: a worker's event does to the board what `run_worker` does, and
/// the counting of bytes changes nothing else.
pub open spec fn crew_step(before: CrewMoment, step: CrewStep, after: CrewMoment) -> bool {
    &&& after.board.wf()
    &&& match step {
        CrewStep::Worker { worker, event, action } => {
            &&& 0 <= worker < before.last.len()
            &&& follows(before.last[worker], event)
            &&& parallel::worker_next(before.board, event, after.board, action)
            &&& after.last == before.last.update(worker, Some(action))
        },
        CrewStep::Received => {
            &&& after.board == (TransferBoard {
                downloaded: after.board.downloaded,
                ..before.board
            })
            &&& after.last == before.last
        },
    }
}

/// A run of the workers, moment by moment.
pub open spec fn crew_run(moments: Seq<CrewMoment>, steps: Seq<CrewStep>) -> bool {
    &&& moments.len() == steps.len() + 1
    &&& forall|k: int|
        0 <= k < steps.len() ==> crew_step(moments[k], #[trigger] steps[k], moments[k + 1])
}

/// The workers are about to start on a board as it is planned.
pub open spec fn crew_starts(moment: CrewMoment) -> bool {
    &&& moment.board.wf()
    &&& moment.board.in_flight@ == Set::<int>::empty()
    &&& moment.board.lost@ == Set::<int>::empty()
    &&& moment.last.len() > 0
    &&& forall|w: int| 0 <= w < moment.last.len() ==> (#[trigger] moment.last[w]) is None
}

/// Every worker was told to stop.
pub open spec fn crew_stopped(moment: CrewMoment) -> bool {
    forall|w: int|
        0 <= w < moment.last.len() ==> #[trigger] moment.last[w] == Some(WorkerAction::Stop)
}

/// The step tells a worker that it failed.
pub open spec fn fails(step: CrewStep) -> bool {
    match step {
        CrewStep::Worker { worker, event, action } => action is Fail,
        CrewStep::Received => false,
    }
}

/// Worker `w` is out for a segment.
pub open spec fn is_out(last: Seq<Option<WorkerAction>>, w: int) -> bool {
    &&& 0 <= w < last.len()
    &&& last[w] is Some
    &&& last[w]->Some_0 is Fetch
}

/// The segment that worker `w` is out for.
pub open spec fn sent_for(last: Seq<Option<WorkerAction>>, w: int) -> Segment {
    last[w]->Some_0->Fetch_0
}

/// What holds at every moment: the chunks in flight are those that workers are out for, each for
/// its own, and nothing waits once a worker was told to stop.
pub open spec fn crew_invariant(moment: CrewMoment) -> bool {
    let board = moment.board;
    let last = moment.last;
    &&& board.wf()
    &&& forall|w: int| #[trigger]
        is_out(last, w) ==> {
            &&& board.in_flight@.contains(sent_for(last, w).index as int)
            &&& chunks::is_chunk(
                sent_for(last, w),
                sent_for(last, w).index as int,
                board.total_size as int,
                board.chunk_size as int,
            )
        }
    &&& forall|v: int, w: int| #[trigger]
        is_out(last, v) && #[trigger] is_out(last, w) && v != w ==> sent_for(last, v).index
            != sent_for(last, w).index
    &&& forall|i: int| #[trigger]
        board.in_flight@.contains(i) ==> exists|w: int| #[trigger]
            is_out(last, w) && sent_for(last, w).index == i
    &&& forall|w: int|
        0 <= w < last.len() && #[trigger] last[w] == Some(WorkerAction::Stop)
            ==> board.queue@.len() == 0
}

proof fn lemma_crew_step(before: CrewMoment, step: CrewStep, after: CrewMoment)
    requires
        crew_invariant(before),
        crew_step(before, step, after),
    ensures
        crew_invariant(after),
        after.board.same_download(before.board),
        after.last.len() == before.last.len(),
        !fails(step) ==> after.board.lost@ == before.board.lost@,
{
    match step {
        CrewStep::Worker { worker, event, action } => {
            lemma_worker_step(before, worker, event, action, after);
        },
        CrewStep::Received => {
            assert(after.board.queue@ == before.board.queue@);
        },
    }
}

proof fn lemma_worker_step(
    before: CrewMoment,
    worker: int,
    event: WorkerEvent,
    action: WorkerAction,
    after: CrewMoment,
)
    requires
        crew_invariant(before),
        crew_step(before, CrewStep::Worker { worker, event, action }, after),
    ensures
        crew_invariant(after),
        after.board.same_download(before.board),
        after.last.len() == before.last.len(),
        action !is Fail ==> after.board.lost@ == before.board.lost@,
{
    let old_last = before.last;
    let last = after.last;
    assert(last[worker] == Some(action));
    assert forall|w: int| w != worker implies #[trigger] is_out(last, w) == is_out(old_last, w) && (
    is_out(last, w) ==> sent_for(last, w) == sent_for(old_last, w)) by {}
    match event {
        WorkerEvent::Ready => {
            assert(!is_out(old_last, worker));
            match action {
                WorkerAction::Fetch(segment) => {
                    assert(is_out(last, worker));
                    assert(sent_for(last, worker) == segment);
                    assert forall|i: int| #[trigger]
                        after.board.in_flight@.contains(i) implies exists|w: int| #[trigger]
                        is_out(last, w) && sent_for(last, w).index == i by {
                        if i == segment.index {
                            assert(is_out(last, worker));
                        } else {
                            let w = choose|w: int| #[trigger]
                                is_out(old_last, w) && sent_for(old_last, w).index == i;
                            assert(is_out(last, w));
                        }
                    }
                    assert forall|w: int|
                        0 <= w < last.len() && #[trigger] last[w] == Some(
                            WorkerAction::Stop,
                        ) implies after.board.queue@.len() == 0 by {
                        assert(old_last[w] == Some(WorkerAction::Stop));
                    }
                },
                _ => {
                    lemma_others_are_out(before, worker, after);
                },
            }
        },
        WorkerEvent::Fetched { segment, outcome, now } => {
            assert(is_out(old_last, worker));
            assert(sent_for(old_last, worker) == segment);
            assert(!is_out(last, worker));
            assert(after.board.in_flight@ == before.board.in_flight@.remove(segment.index as int));
            assert forall|i: int| #[trigger]
                after.board.in_flight@.contains(i) implies exists|w: int| #[trigger]
                is_out(last, w) && sent_for(last, w).index == i by {
                assert(before.board.in_flight@.contains(i));
                let w = choose|w: int| #[trigger]
                    is_out(old_last, w) && sent_for(old_last, w).index == i;
                assert(is_out(last, w));
            }
            lemma_nobody_stops(before, worker, after);
        },
        WorkerEvent::Saved { completed_count, outcome } => {
            assert(!is_out(old_last, worker));
            assert(!is_out(last, worker));
            lemma_others_are_out(before, worker, after);
            lemma_nobody_stops(before, worker, after);
        },
    }
}

/// Where nothing goes in flight or comes back, the workers that are out are the same.
proof fn lemma_others_are_out(before: CrewMoment, worker: int, after: CrewMoment)
    requires
        crew_invariant(before),
        0 <= worker < before.last.len(),
        after.last == before.last.update(worker, after.last[worker]),
        !is_out(before.last, worker),
        after.board.in_flight@ == before.board.in_flight@,
    ensures
        forall|i: int| #[trigger]
            after.board.in_flight@.contains(i) ==> exists|w: int| #[trigger]
                is_out(after.last, w) && sent_for(after.last, w).index == i,
{
    assert forall|i: int| #[trigger] after.board.in_flight@.contains(i) implies exists|w: int|
     #[trigger]
        is_out(after.last, w) && sent_for(after.last, w).index == i by {
        let w = choose|w: int| #[trigger]
            is_out(before.last, w) && sent_for(before.last, w).index == i;
        assert(is_out(after.last, w));
    }
}

/// Where no worker is told to stop and the queue stays, what was said of it stays true.
proof fn lemma_nobody_stops(before: CrewMoment, worker: int, after: CrewMoment)
    requires
        crew_invariant(before),
        0 <= worker < before.last.len(),
        after.last == before.last.update(worker, after.last[worker]),
        after.last[worker] != Some(WorkerAction::Stop),
        after.board.queue@ == before.board.queue@,
    ensures
        forall|w: int|
            0 <= w < after.last.len() && #[trigger] after.last[w] == Some(WorkerAction::Stop)
                ==> after.board.queue@.len() == 0,
{
    assert forall|w: int|
        0 <= w < after.last.len() && #[trigger] after.last[w] == Some(
            WorkerAction::Stop,
        ) implies after.board.queue@.len() == 0 by {
        assert(before.last[w] == Some(WorkerAction::Stop));
    }
}

/// What holds after the first `n` steps of a run.
proof fn lemma_crew_run(moments: Seq<CrewMoment>, steps: Seq<CrewStep>, n: int)
    requires
        crew_run(moments, steps),
        crew_starts(moments[0]),
        0 <= n <= steps.len(),
    ensures
        crew_invariant(moments[n]),
        moments[n].board.same_download(moments[0].board),
        moments[n].last.len() == moments[0].last.len(),
        (forall|k: int| 0 <= k < n ==> !fails(#[trigger] steps[k])) ==> moments[n].board.lost@
            == Set::<int>::empty(),
    decreases n,
{
    if n > 0 {
        lemma_crew_run(moments, steps, n - 1);
        assert(crew_step(moments[n - 1], steps[n - 1], moments[n]));
        lemma_crew_step(moments[n - 1], steps[n - 1], moments[n]);
    }
}

/// Workers that keep to what they are told never hand in a segment that they were not sent for, so
/// every event of theirs is one that the board can see.
pub proof fn law_workers_hand_in_what_they_were_sent_for(
    moments: Seq<CrewMoment>,
    steps: Seq<CrewStep>,
    worker: int,
    event: WorkerEvent,
)
    requires
        crew_run(moments, steps),
        crew_starts(moments[0]),
        0 <= worker < moments[0].last.len(),
        follows(moments[steps.len() as int].last[worker], event),
    ensures
        parallel::plausible(moments[steps.len() as int].board, event),
{
    let end = steps.len() as int;
    lemma_crew_run(moments, steps, end);
    if event is Fetched {
        assert(is_out(moments[end].last, worker));
    }
}

/// Once every worker has stopped and none has failed, nothing waits, nothing is in flight and
/// nothing is lost: the whole file is there.
pub proof fn law_stopped_workers_leave_the_whole_file(
    moments: Seq<CrewMoment>,
    steps: Seq<CrewStep>,
)
    requires
        crew_run(moments, steps),
        crew_starts(moments[0]),
        crew_stopped(moments[steps.len() as int]),
        forall|k: int| 0 <= k < steps.len() ==> !fails(#[trigger] steps[k]),
    ensures
        ({
            let board = moments[steps.len() as int].board;
            &&& board.same_download(moments[0].board)
            &&& board.queue@.len() == 0
            &&& board.in_flight@ == Set::<int>::empty()
            &&& board.active_workers == 0
            &&& board.lost@ == Set::<int>::empty()
            &&& segments::all_there(board)
            &&& board.completed_count == board.completed@.len()
        }),
{
    let end = moments[steps.len() as int];
    lemma_crew_run(moments, steps, steps.len() as int);
    assert(end.last[0] == Some(WorkerAction::Stop));
    assert(end.board.in_flight@ =~= Set::<int>::empty()) by {
        assert forall|i: int| !#[trigger] end.board.in_flight@.contains(i) by {
            if end.board.in_flight@.contains(i) {
                let w = choose|w: int| #[trigger]
                    is_out(end.last, w) && sent_for(end.last, w).index == i;
                assert(end.last[w] == Some(WorkerAction::Stop));
            }
        }
    }
    parallel::law_drained_board_is_complete(end.board);
}

/// The byte at `at` lies in a chunk that a worker is fetching.
pub open spec fn is_in_flight(board: TransferBoard, at: int) -> bool {
    exists|i: int| #[trigger]
        board.in_flight@.contains(i) && chunks::lies_in_chunk(
            at,
            i,
            board.total_size as int,
            board.chunk_size as int,
        )
}

/// What a step does to the data of the file: workers write only to chunks that they are fetching,
/// and a segment that was fetched holds what the server has.
pub open spec fn file_step(
    board: TransferBoard,
    step: CrewStep,
    before: Seq<u8>,
    after: Seq<u8>,
    served: Seq<u8>,
) -> bool {
    &&& after.len() == before.len()
    &&& forall|at: int|
        0 <= at < before.len() && !is_in_flight(board, at) ==> #[trigger] after[at] == before[at]
    &&& match step {
        CrewStep::Worker {
            worker,
            event: WorkerEvent::Fetched { segment, outcome: Ok(()), now },
            action,
        } => forall|at: int|
            segment.start <= at <= segment.end ==> #[trigger] after[at] == served[at],
        _ => true,
    }
}

/// The data of the file, moment by moment, along a run of the workers.
pub open spec fn file_run(
    moments: Seq<CrewMoment>,
    steps: Seq<CrewStep>,
    files: Seq<Seq<u8>>,
    served: Seq<u8>,
) -> bool {
    &&& files.len() == moments.len()
    &&& forall|k: int|
        0 <= k < steps.len() ==> file_step(
            moments[k].board,
            #[trigger] steps[k],
            files[k],
            files[k + 1],
            served,
        )
}

proof fn lemma_file_step(
    before: CrewMoment,
    step: CrewStep,
    after: CrewMoment,
    file: Seq<u8>,
    next: Seq<u8>,
    served: Seq<u8>,
)
    requires
        crew_invariant(before),
        crew_step(before, step, after),
        file_step(before.board, step, file, next, served),
        served.len() == before.board.total_size,
        chunks::holds_chunks(file, served, before.board.completed@, before.board.chunk_size as int),
    ensures
        chunks::holds_chunks(next, served, after.board.completed@, before.board.chunk_size as int),
{
    let board = before.board;
    let total = board.total_size as int;
    let chunk = board.chunk_size as int;
    let flags = after.board.completed@;
    assert forall|i: int, at: int|
        0 <= i < flags.len() && flags[i] && #[trigger] chunks::lies_in_chunk(
            at,
            i,
            total,
            chunk,
        ) implies next[at] == served[at] by {
        vstd::arithmetic::mul::lemma_mul_nonnegative(i, chunk);
        chunks::law_chunks_tile_the_file(board.total_size, board.chunk_size, at as u64);
        if i < board.completed@.len() && board.completed@[i] {
            assert(file[at] == served[at]);
            assert(!is_in_flight(board, at)) by {
                if is_in_flight(board, at) {
                    let other = choose|other: int| #[trigger]
                        board.in_flight@.contains(other) && chunks::lies_in_chunk(
                            at,
                            other,
                            total,
                            chunk,
                        );
                    assert(other == i);
                }
            }
        } else {
            match step {
                CrewStep::Worker { worker, event, action } => match event {
                    WorkerEvent::Fetched { segment, outcome, now } => {
                        assert(is_out(before.last, worker));
                        assert(sent_for(before.last, worker) == segment);
                        assert(i == segment.index);
                        assert(segment.start <= at <= segment.end);
                    },
                    _ => {},
                },
                CrewStep::Received => {},
            }
        }
    }
}

proof fn lemma_file_run(
    moments: Seq<CrewMoment>,
    steps: Seq<CrewStep>,
    files: Seq<Seq<u8>>,
    served: Seq<u8>,
    n: int,
)
    requires
        crew_run(moments, steps),
        crew_starts(moments[0]),
        file_run(moments, steps, files, served),
        served.len() == moments[0].board.total_size,
        chunks::holds_chunks(
            files[0],
            served,
            moments[0].board.completed@,
            moments[0].board.chunk_size as int,
        ),
        0 <= n <= steps.len(),
    ensures
        chunks::holds_chunks(
            files[n],
            served,
            moments[n].board.completed@,
            moments[0].board.chunk_size as int,
        ),
    decreases n,
{
    if n > 0 {
        lemma_file_run(moments, steps, files, served, n - 1);
        lemma_crew_run(moments, steps, n - 1);
        assert(crew_step(moments[n - 1], steps[n - 1], moments[n]));
        assert(file_step(moments[n - 1].board, steps[n - 1], files[n - 1], files[n], served));
        lemma_file_step(
            moments[n - 1],
            steps[n - 1],
            moments[n],
            files[n - 1],
            files[n],
            served,
        );
    }
}

/// At every moment of a run the complete chunks hold what the server has; and once every worker
/// has stopped and none has failed, the file is the one that the server has.
pub proof fn law_workers_write_the_served_file(
    moments: Seq<CrewMoment>,
    steps: Seq<CrewStep>,
    files: Seq<Seq<u8>>,
    served: Seq<u8>,
)
    requires
        crew_run(moments, steps),
        crew_starts(moments[0]),
        file_run(moments, steps, files, served),
        served.len() == moments[0].board.total_size,
        chunks::holds_chunks(
            files[0],
            served,
            moments[0].board.completed@,
            moments[0].board.chunk_size as int,
        ),
    ensures
        forall|k: int|
            0 <= k <= steps.len() ==> chunks::holds_chunks(
                #[trigger] files[k],
                served,
                moments[k].board.completed@,
                moments[k].board.chunk_size as int,
            ),
        crew_stopped(moments[steps.len() as int]) && (forall|k: int|
            0 <= k < steps.len() ==> !fails(#[trigger] steps[k])) ==> files[steps.len() as int]
            == served,
{
    assert forall|k: int| 0 <= k <= steps.len() implies chunks::holds_chunks(
        #[trigger] files[k],
        served,
        moments[k].board.completed@,
        moments[k].board.chunk_size as int,
    ) by {
        lemma_file_run(moments, steps, files, served, k);
        lemma_crew_run(moments, steps, k);
    }
    let end = steps.len() as int;
    if crew_stopped(moments[end]) && (forall|k: int|
        0 <= k < steps.len() ==> !fails(#[trigger] steps[k])) {
        law_stopped_workers_leave_the_whole_file(moments, steps);
        lemma_crew_run(moments, steps, end);
        assert(chunks::holds_chunks(
            files[end],
            served,
            moments[end].board.completed@,
            moments[end].board.chunk_size as int,
        ));
        chunks::law_complete_file_is_the_served_file(
            files[end],
            served,
            moments[end].board.completed@,
            moments[end].board.chunk_size,
        );
    }
}

} // verus!
