use libdl::error::DlError;
use libdl::headers::ResponseHead;
use libdl::retry::{download_segment, get_jitter_ms, retry_single_stream, AttemptStep};
use libdl::single::{
    accepts_status, download_single_stream, single_stream_range, SingleStep, SingleStream,
};
use libdl::types::{DownloadKind, DownloadPhase, DownloadSummary};

fn head(status: u16) -> ResponseHead {
    ResponseHead {
        status,
        content_length: None,
        content_range: None,
        accept_ranges: None,
        etag: None,
        last_modified: None,
        retry_after: None,
        server: None,
        cf_mitigated: None,
    }
}

fn limited(retry_after: Option<u64>) -> DlError {
    DlError::RateLimited { message: "slow down".to_string(), retry_after }
}

fn reset() -> DlError {
    DlError::Http("reset".to_string())
}

fn gone() -> DlError {
    DlError::InvalidResponse("GET returned 410 Gone".to_string())
}

#[test]
fn jitter_is_one_step_of_a_generator() {
    for nanos in [0, 1, 499, 1_700_000_000_123_456_789, u64::MAX as u128, u128::MAX] {
        let seed = nanos as u64;
        let expected = seed.wrapping_mul(6364136223846793005).wrapping_add(1) % 500;
        assert_eq!(get_jitter_ms(nanos), expected);
        assert!(expected < 500);
    }
    assert_eq!(get_jitter_ms(0), 1);
}

#[test]
fn segments_wait_longer_each_time() {
    let waits: Vec<AttemptStep> = (1..=6).map(|n| download_segment(Err(reset()), n, 250)).collect();
    assert_eq!(
        waits,
        vec![
            AttemptStep::Retry { wait_ms: 1250 },
            AttemptStep::Retry { wait_ms: 2250 },
            AttemptStep::Retry { wait_ms: 4250 },
            AttemptStep::Retry { wait_ms: 8250 },
            AttemptStep::Retry { wait_ms: 16250 },
            AttemptStep::Failed(reset()),
        ]
    );
}

#[test]
fn limited_segments_wait_as_asked() {
    assert_eq!(
        download_segment(Err(limited(Some(90))), 1, 250),
        AttemptStep::Retry { wait_ms: 90_000 }
    );
    assert_eq!(
        download_segment(Err(limited(Some(u64::MAX))), 1, 0),
        AttemptStep::Retry { wait_ms: u64::MAX as u128 * 1000 }
    );
    assert_eq!(download_segment(Err(limited(None)), 1, 250), AttemptStep::Retry { wait_ms: 3000 });
    assert_eq!(download_segment(Err(limited(None)), 5, 250), AttemptStep::Retry { wait_ms: 7000 });
    assert_eq!(
        download_segment(Err(limited(None)), 6, 250),
        AttemptStep::Failed(limited(None))
    );
}

#[test]
fn final_errors_end_a_segment() {
    assert_eq!(download_segment(Err(gone()), 1, 0), AttemptStep::Failed(gone()));
    assert_eq!(download_segment(Ok(()), 6, 0), AttemptStep::Done);
}

#[test]
fn single_streams_wait_longer_each_time() {
    let waits: Vec<Option<u128>> = (1..=5).map(|n| retry_single_stream(&reset(), n, 7)).collect();
    assert_eq!(waits, vec![Some(1007), Some(2007), Some(4007), Some(8007), None]);
    let waits: Vec<Option<u128>> = (1..=5).map(|n| retry_single_stream(&limited(None), n, 7)).collect();
    assert_eq!(waits, vec![Some(2007), Some(4007), Some(8007), Some(16007), None]);
}

#[test]
fn limited_single_streams_wait_half_a_minute_at_most() {
    assert_eq!(retry_single_stream(&limited(Some(29)), 1, 7), Some(29_000));
    assert_eq!(retry_single_stream(&limited(Some(31)), 1, 7), Some(30_000));
    assert_eq!(retry_single_stream(&limited(Some(u64::MAX)), 4, 7), Some(30_000));
    assert_eq!(retry_single_stream(&gone(), 1, 7), None);
}

#[test]
fn stream_requests() {
    assert_eq!(single_stream_range(0, true), None);
    assert_eq!(single_stream_range(131072, false), None);
    assert_eq!(single_stream_range(131072, true), Some("bytes=131072-".to_string()));
}

#[test]
fn accepted_statuses() {
    assert!(accepts_status(206, 10, true));
    assert!(!accepts_status(206, 10, false));
    assert!(accepts_status(206, 0, true));
    assert!(accepts_status(200, 10, true));
    assert!(accepts_status(200, 0, false));
    assert!(accepts_status(204, 0, false));
    assert!(!accepts_status(204, 10, true));
    assert!(!accepts_status(304, 0, true));
}

#[test]
fn stream_replies() {
    assert_eq!(
        download_single_stream(Ok(&head(206)), None, 10, true, 1, 0),
        SingleStep::Read { offset: 10 }
    );
    assert_eq!(
        download_single_stream(Ok(&head(200)), None, 10, true, 5, 0),
        SingleStep::Read { offset: 0 }
    );
    assert_eq!(
        download_single_stream(Ok(&head(500)), None, 10, true, 2, 5),
        SingleStep::Retry { wait_ms: 2005 }
    );
    assert_eq!(
        download_single_stream(Ok(&head(500)), Some("<Code>E</Code>"), 10, true, 5, 5),
        SingleStep::Failed(DlError::ServerError(
            "GET returned 500 Internal Server Error; response error: E".to_string()
        ))
    );
    assert_eq!(
        download_single_stream(Ok(&head(416)), None, 10, true, 1, 5),
        SingleStep::Failed(DlError::InvalidResponse(
            "GET returned 416 Range Not Satisfiable".to_string()
        ))
    );
    assert_eq!(
        download_single_stream(Err(reset()), None, 0, false, 1, 5),
        SingleStep::Retry { wait_ms: 1005 }
    );
    assert_eq!(
        download_single_stream(Err(reset()), None, 0, false, 5, 5),
        SingleStep::Failed(reset())
    );
}

#[test]
fn stream_sizes() {
    assert_eq!(SingleStream::start(10, Some(50), Some(7), 0).total_size, Some(50));
    assert_eq!(SingleStream::start(10, None, Some(7), 0).total_size, Some(17));
    assert_eq!(SingleStream::start(10, None, None, 0).total_size, None);
}

#[test]
fn stream_reports_and_outcome() {
    let mut stream = SingleStream::start(10, None, None, 0);
    for piece in 1..=64_u64 {
        // The 32nd piece comes too early for a report, the 64th does not.
        let due = stream.receive(2, piece * 2_000_000);
        assert_eq!(due, piece == 64, "{piece}");
    }
    let report = stream.report(true, DownloadPhase::Downloading, "u", "o").unwrap();
    assert_eq!(report.downloaded_bytes, 138);
    assert_eq!(report.active_workers, 1);
    assert_eq!(report.completed_chunks, None);
    assert_eq!(stream.report(true, DownloadPhase::Complete, "u", "o").unwrap().active_workers, 0);
    assert_eq!(stream.report(false, DownloadPhase::Complete, "u", "o"), None);
    assert_eq!(
        stream.finish("u", "o"),
        Ok(DownloadSummary {
            kind: DownloadKind::Http,
            source: "u".to_string(),
            output_path: "o".to_string(),
            total_bytes: 138,
            downloaded_bytes: 138,
            resumed: true,
        })
    );
    let mut known = SingleStream::start(0, Some(9), None, 0);
    let wrote = |count: u64| {
        DlError::InvalidResponse(format!("single stream wrote {count} bytes, expected 9"))
    };
    assert_eq!(known.finish("u", "o"), Err(wrote(0)));
    let _ = known.receive(9, 0);
    let summary = known.finish("u", "o").unwrap();
    assert_eq!((summary.total_bytes, summary.downloaded_bytes, summary.resumed), (9, 9, false));
    let _ = known.receive(1, 0);
    assert_eq!(known.finish("u", "o"), Err(wrote(10)));
}
