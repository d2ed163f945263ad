use libdl::chunks::Segment;
use libdl::error::DlError;
use libdl::parallel::{
    download_parallel, run_worker, worker_outcome, ParallelPlan, WorkerAction, WorkerEvent,
};
use libdl::probe::HttpProbe;
use libdl::state::{
    urls_are_compatible, weak_validator_matches, InlineDownloadState, STATE_VERSION,
};
use libdl::stream::{
    stream_response_to_file, ReportPacer, SegmentMeter, SegmentStream, StreamAction, StreamEvent,
};
use libdl::types::{emit_progress, DownloadKind, DownloadPhase};

fn probe(total_size: Option<u64>, etag: Option<&str>) -> HttpProbe {
    HttpProbe {
        total_size,
        ranges_supported: true,
        etag: etag.map(|tag| tag.to_string()),
        last_modified: None,
    }
}

fn saved(chunk_size: u64, completed: Vec<bool>, etag: Option<&str>) -> InlineDownloadState {
    InlineDownloadState::new(
        DownloadKind::Http,
        "http://host/file".to_string(),
        25,
        chunk_size,
        completed,
        etag.map(|tag| tag.to_string()),
        None,
    )
}

fn plan(connections: usize, found: Option<InlineDownloadState>) -> ParallelPlan {
    let url = "http://host/file".to_string();
    let probe = probe(Some(25), Some("a"));
    match download_parallel(&url, &probe, connections, 10, 5_000_000_000, true, Ok(found), 100) {
        Ok(plan) => plan,
        Err(error) => panic!("{}", error.message()),
    }
}

#[test]
fn fresh_plan() {
    let plan = plan(8, None);
    assert!(!plan.resumed);
    assert!(!plan.complete);
    assert_eq!(plan.worker_count, 3);
    assert_eq!(plan.board.completed, vec![false; 3]);
    assert_eq!(plan.board.downloaded, 0);
    assert_eq!(plan.board.queue.len(), 3);
    assert_eq!(plan.board.queue[2], Segment { index: 2, start: 20, end: 24 });
}

#[test]
fn plan_goes_on_from_a_state() {
    let plan = plan(2, Some(saved(10, vec![true, false, true], Some("a"))));
    assert!(plan.resumed);
    assert_eq!(plan.worker_count, 2);
    assert_eq!(plan.board.downloaded, 15);
    assert_eq!(plan.board.completed_count, 2);
    assert_eq!(plan.board.queue.len(), 1);
    assert_eq!(plan.board.queue[0], Segment { index: 1, start: 10, end: 19 });
}

#[test]
fn plan_without_anything_to_fetch() {
    let plan = plan(2, Some(saved(10, vec![true; 3], None)));
    assert!(plan.resumed);
    assert!(plan.complete);
    assert_eq!(plan.board.downloaded, 25);
    let summary = plan.board.summary("out", plan.resumed);
    assert_eq!((summary.total_bytes, summary.downloaded_bytes, summary.resumed), (25, 25, true));
}

#[test]
fn plan_of_an_empty_file() {
    let url = "u".to_string();
    let plan = match download_parallel(&url, &probe(Some(0), None), 4, 10, 0, true, Ok(None), 0) {
        Ok(plan) => plan,
        Err(error) => panic!("{}", error.message()),
    };
    assert!(plan.complete);
    assert_eq!(plan.worker_count, 1);
}

#[test]
fn plan_ignores_states_of_other_files() {
    let other = |change: fn(&mut InlineDownloadState)| {
        let mut state = saved(10, vec![true, false, true], Some("a"));
        change(&mut state);
        let plan = plan(2, Some(state));
        assert!(!plan.resumed);
        assert_eq!(plan.board.completed, vec![false; 3]);
    };
    other(|state| state.version = 2);
    other(|state| state.kind = DownloadKind::Torrent);
    other(|state| state.source = "http://host/other".to_string());
    other(|state| state.total_size = 24);
    other(|state| state.chunk_size = 5);
    other(|state| state.etag = Some("b".to_string()));
    other(|state| state.completed_chunks = vec![true, false]);
}

#[test]
fn plan_failures() {
    let url = "u".to_string();
    let unread = || DlError::Io("gone".to_string());
    let plan = download_parallel(&url, &probe(None, None), 4, 10, 0, true, Err(unread()), 0);
    assert_eq!(plan.err(), Some(DlError::InvalidResponse("missing content length".to_string())));
    let plan = download_parallel(&url, &probe(Some(9), None), 4, 10, 0, true, Err(unread()), 0);
    assert_eq!(plan.err(), Some(unread()));
    let plan = download_parallel(&url, &probe(Some(9), None), 4, 10, 0, false, Err(unread()), 0);
    assert!(plan.is_ok());
}

#[test]
fn a_fresh_plan_ignores_the_state() {
    let url = "http://host/file".to_string();
    let read = Ok(Some(saved(10, vec![true, false, true], Some("a"))));
    let plan = download_parallel(&url, &probe(Some(25), Some("a")), 2, 10, 0, false, read, 0);
    let Ok(plan) = plan else { panic!("no plan") };
    assert!(!plan.resumed);
    assert_eq!(plan.board.completed, vec![false; 3]);
    assert_eq!(plan.board.downloaded, 0);

    // Nor is a state saved, though it would be due.
    let mut board = plan.board;
    for completed_count in 1..=3 {
        let WorkerAction::Fetch(segment) = run_worker(&mut board, WorkerEvent::Ready) else {
            panic!("no segment")
        };
        let fetched = WorkerEvent::Fetched { segment, outcome: Ok(()), now: 9 };
        assert_eq!(run_worker(&mut board, fetched), WorkerAction::Report { completed_count });
    }
}

#[test]
fn validators() {
    let some = |text: &str| Some(text.to_string());
    assert!(weak_validator_matches(&some("a"), &some("a")));
    assert!(!weak_validator_matches(&some("a"), &some("b")));
    assert!(weak_validator_matches(&None, &some("b")));
    assert!(weak_validator_matches(&some("a"), &None));
    assert!(weak_validator_matches(&None, &None));
    assert!(urls_are_compatible(&"u".to_string(), &"u".to_string()));
    assert!(!urls_are_compatible(&"u".to_string(), &"v".to_string()));
}

#[test]
fn states_with_empty_chunks_are_invalid() {
    assert_eq!(saved(10, vec![], None).checked(), Ok(saved(10, vec![], None)));
    assert_eq!(
        saved(0, vec![], None).checked(),
        Err(DlError::InvalidState("chunk size is zero".to_string()))
    );
}

#[test]
fn a_worker_fetches_saves_and_reports() {
    let mut board = plan(1, None).board;
    let fetch = run_worker(&mut board, WorkerEvent::Ready);
    let first = Segment { index: 0, start: 0, end: 9 };
    assert_eq!(fetch, WorkerAction::Fetch(first));
    assert_eq!(board.active_workers, 1);
    let fetched = |segment: Segment, now: u64| WorkerEvent::Fetched { segment, outcome: Ok(()), now };
    assert_eq!(
        run_worker(&mut board, fetched(first, 5_000_000_099)),
        WorkerAction::Report { completed_count: 1 }
    );
    assert_eq!(board.active_workers, 0);
    let second = Segment { index: 1, start: 10, end: 19 };
    assert_eq!(run_worker(&mut board, WorkerEvent::Ready), WorkerAction::Fetch(second));
    assert_eq!(
        run_worker(&mut board, fetched(second, 5_000_000_100)),
        WorkerAction::Save { completed_count: 2, sync_to_disk: false }
    );
    assert_eq!(
        run_worker(&mut board, WorkerEvent::Saved { completed_count: 2, outcome: Ok(()) }),
        WorkerAction::Report { completed_count: 2 }
    );
    let third = Segment { index: 2, start: 20, end: 24 };
    assert_eq!(run_worker(&mut board, WorkerEvent::Ready), WorkerAction::Fetch(third));
    assert_eq!(
        run_worker(&mut board, fetched(third, 5_000_000_101)),
        WorkerAction::Save { completed_count: 3, sync_to_disk: true }
    );
    assert_eq!(run_worker(&mut board, WorkerEvent::Ready), WorkerAction::Stop);
    assert_eq!(board.completed, vec![true; 3]);
    assert_eq!(board.completed_count, 3);
}

#[test]
fn a_worker_ends_with_its_first_failure() {
    let mut board = plan(1, None).board;
    let segment = match run_worker(&mut board, WorkerEvent::Ready) {
        WorkerAction::Fetch(segment) => segment,
        other => panic!("{other:?}"),
    };
    let gone = || DlError::InvalidResponse("returned 404".to_string());
    let failed = WorkerEvent::Fetched { segment, outcome: Err(gone()), now: 0 };
    assert_eq!(run_worker(&mut board, failed), WorkerAction::Fail(gone()));
    assert_eq!(board.completed, vec![false; 3]);
    assert_eq!(board.active_workers, 0);
    assert_eq!(board.queue.len(), 2);
    let full = || DlError::Io("full".to_string());
    let unsaved = WorkerEvent::Saved { completed_count: 1, outcome: Err(full()) };
    assert_eq!(run_worker(&mut board, unsaved), WorkerAction::Fail(full()));
}

#[test]
fn what_is_saved_is_taken_up() {
    let mut board = plan(4, None).board;
    for expected in [0, 1] {
        let segment = board.pop_segment().unwrap();
        assert_eq!(segment.index, expected);
        if expected == 1 {
            assert!(!board.complete_segment(&segment, 0).is_final);
        }
    }
    let state = board.persist_worker_state(1_700_000_000);
    assert_eq!(state.version, STATE_VERSION);
    assert_eq!(state.updated_at_unix_secs, 1_700_000_000);
    assert_eq!(state.completed_chunks, vec![false, true, false]);
    assert_eq!(state.etag, Some("a".to_string()));
    let again = plan(4, Some(state));
    assert!(again.resumed);
    assert_eq!(again.board.completed, vec![false, true, false]);
    assert_eq!(again.board.queue.len(), 2);
}

#[test]
fn board_reports() {
    let mut board = plan(4, Some(saved(10, vec![true, false, false], None))).board;
    let _ = board.pop_segment();
    assert_eq!(board.receive_bytes(4), 14);
    let report = board.report(true, DownloadPhase::PersistingState, "o").unwrap();
    assert_eq!(report.kind, DownloadKind::Http);
    assert_eq!(report.source, "http://host/file");
    assert_eq!(report.output_path, "o");
    assert_eq!(report.downloaded_bytes, 14);
    assert_eq!(report.total_bytes, Some(25));
    assert_eq!(report.active_workers, 1);
    assert_eq!((report.completed_chunks, report.total_chunks), (Some(1), Some(3)));
    let report = board.report(true, DownloadPhase::Finalizing, "o").unwrap();
    assert_eq!((report.downloaded_bytes, report.active_workers), (25, 0));
    assert_eq!((report.completed_chunks, report.total_chunks), (Some(3), Some(3)));
    let report = board.report_segment(true, 2, "o").unwrap();
    assert_eq!(report.phase, DownloadPhase::Downloading);
    assert_eq!((report.completed_chunks, report.downloaded_bytes), (Some(2), 14));
    assert_eq!(board.report(false, DownloadPhase::Downloading, "o"), None);
    assert_eq!(board.report_segment(false, 2, "o"), None);
}

#[test]
fn the_byte_count_wraps_around() {
    let mut board = plan(4, None).board;
    assert_eq!(board.receive_bytes(u64::MAX), u64::MAX);
    assert_eq!(board.receive_bytes(3), 2);
}

#[test]
fn worker_outcomes() {
    assert_eq!(worker_outcome(Ok(Ok(()))), Ok(()));
    assert_eq!(
        worker_outcome(Ok(Err(DlError::RangesUnsupported))),
        Err(DlError::RangesUnsupported)
    );
    assert_eq!(
        worker_outcome(Err("panicked".to_string())),
        Err(DlError::Join("panicked".to_string()))
    );
}

#[test]
fn reports_need_a_listener() {
    let report = emit_progress(true, DownloadPhase::Probing, "u", "o", 0, None, 0, None, None);
    assert_eq!(report.map(|r| (r.phase, r.total_bytes)), Some((DownloadPhase::Probing, None)));
    assert_eq!(emit_progress(false, DownloadPhase::Probing, "u", "o", 0, None, 0, None, None), None);
}

#[test]
fn a_body_of_the_right_length_is_accepted() {
    let segment = Segment { index: 7, start: 30, end: 39 };
    for pieces in [vec![10], vec![4, 6], vec![0, 10, 0], vec![1; 10]] {
        let mut stream = SegmentStream::new(segment, 0);
        for len in pieces {
            assert_eq!(
                stream_response_to_file(&mut stream, StreamEvent::Piece { len }),
                StreamAction::Write
            );
            assert_eq!(
                stream_response_to_file(&mut stream, StreamEvent::Written { now: 1 }),
                StreamAction::Count { report: false }
            );
        }
        assert_eq!(
            stream_response_to_file(&mut stream, StreamEvent::Ended),
            StreamAction::Flush
        );
    }
}

#[test]
fn a_body_of_the_wrong_length_is_not_accepted() {
    let segment = Segment { index: 7, start: 30, end: 39 };
    let mut stream = SegmentStream::new(segment, 0);
    let _ = stream_response_to_file(&mut stream, StreamEvent::Piece { len: 9 });
    assert_eq!(
        stream_response_to_file(&mut stream, StreamEvent::Ended),
        StreamAction::Fail(DlError::InvalidResponse(
            "segment 7 wrote 9 bytes, expected 10".to_string()
        ))
    );
    assert_eq!(
        stream_response_to_file(&mut stream, StreamEvent::Piece { len: u64::MAX }),
        StreamAction::Fail(DlError::InvalidResponse(
            "segment 7 exceeded expected length 10".to_string()
        ))
    );
    assert_eq!(
        stream_response_to_file(&mut stream, StreamEvent::Broken(DlError::Http("x".to_string()))),
        StreamAction::Fail(DlError::Http("x".to_string()))
    );
}

#[test]
fn meters_stop_at_the_end_of_the_segment() {
    let mut meter = SegmentMeter::new(Segment { index: 0, start: 5, end: 5 });
    assert_eq!(
        meter.finish(),
        Err(DlError::InvalidResponse("segment 0 wrote 0 bytes, expected 1".to_string()))
    );
    assert_eq!(meter.receive(1), Ok(()));
    assert_eq!(meter.finish(), Ok(()));
    assert!(meter.receive(1).is_err());
    assert_eq!(meter.written, 1);
}

#[test]
fn reports_come_with_every_32nd_piece_at_most_every_tenth_of_a_second() {
    let mut pacer = ReportPacer::new(1_000);
    let due: Vec<u64> = (1..=128).filter(|piece| pacer.count_piece(1_000 + piece * 3_125_000)).collect();
    assert_eq!(due, vec![32, 64, 96, 128]);
    let mut pacer = ReportPacer::new(1_000);
    let due: Vec<u64> = (1..=128).filter(|piece| pacer.count_piece(1_000 + piece * 3_124_999)).collect();
    assert_eq!(due, vec![64, 128]);
    let mut late = ReportPacer { pieces: u32::MAX, last_report: 0 };
    assert!(late.count_piece(100_000_000));
    assert_eq!(late.pieces, 0);
    let mut backwards = ReportPacer { pieces: 31, last_report: 500 };
    assert!(!backwards.count_piece(100));
}
