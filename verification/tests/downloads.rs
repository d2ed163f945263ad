//! Whole downloads, against a server and a disk in memory.
use std::collections::HashMap;

use libdl::chunks::Segment;
use libdl::error::DlError;
use libdl::footer::{find_payload, footer_bytes};
use libdl::headers::ResponseHead;
use libdl::http::{
    adopt_chunk_size, download_http, offset_from_state, HttpAction, HttpDownload, HttpEvent, Stage,
};
use libdl::parallel::{
    download_parallel, run_worker, worker_outcome, TransferBoard, WorkerAction, WorkerEvent,
};
use libdl::paths::determine_download_paths;
use libdl::probe::{probe_range, probe_server, HttpProbe, ProbeStage, ProbeStep};
use libdl::retry::{download_segment, AttemptStep};
use libdl::segments::{run_segments, RunAction, RunEvent, SegmentsRun};
use libdl::single::{download_single_stream, single_stream_range, SingleStep, SingleStream};
use libdl::state::InlineDownloadState;
use libdl::stream::{
    range_header, send_range_request, stream_response_to_file, SegmentStream, StreamAction,
    StreamEvent,
};
use libdl::types::{DownloadKind, DownloadOptions, DownloadPhase, DownloadSummary};

struct World {
    data: Vec<u8>,
    rate_limited: bool,
    files: HashMap<String, Vec<u8>>,
    waited_ms: u128,
    segment_requests: usize,
    /// The first and the last byte of every range that was asked for, but for the probes.
    ranges: Vec<(u64, u64)>,
    phases: Vec<DownloadPhase>,
    /// The stream breaks off after so many bytes.
    breaks_after: Option<usize>,
}

fn served(len: usize) -> Vec<u8> {
    (0..128_u32).flat_map(|value| value.to_be_bytes()).cycle().take(len).collect()
}

fn world(data: &[u8]) -> World {
    World {
        data: data.to_vec(),
        rate_limited: false,
        files: HashMap::new(),
        waited_ms: 0,
        segment_requests: 0,
        ranges: Vec::new(),
        phases: Vec::new(),
        breaks_after: None,
    }
}

fn value(text: String) -> Option<Vec<u8>> {
    Some(text.into_bytes())
}

fn respond(world: &World, range: Option<&str>) -> (ResponseHead, Vec<u8>) {
    let mut head = ResponseHead {
        status: 200,
        content_length: None,
        content_range: None,
        accept_ranges: value("bytes".to_string()),
        etag: value("\"test\"".to_string()),
        last_modified: None,
        retry_after: None,
        server: None,
        cf_mitigated: None,
    };
    let total = world.data.len();
    let Some(range) = range else {
        head.content_length = value(total.to_string());
        return (head, world.data.clone());
    };
    let (start, end) = range.strip_prefix("bytes=").unwrap().split_once('-').unwrap();
    let start: usize = start.parse().unwrap();
    let end: usize = if end.is_empty() { total - 1 } else { end.parse().unwrap() };
    if world.rate_limited && (start, end) != (0, 0) {
        head.status = 429;
        return (head, Vec::new());
    }
    head.status = 206;
    head.content_length = value((end + 1 - start).to_string());
    head.content_range = value(format!("bytes {start}-{end}/{total}"));
    (head, world.data[start..=end].to_vec())
}

fn encoded(state: &InlineDownloadState) -> Vec<u8> {
    let chunks: String = state.completed_chunks.iter().map(|c| if *c { '1' } else { '0' }).collect();
    format!(
        "{}\n{}\n{}\n{}\n{}",
        state.source,
        state.total_size,
        state.chunk_size,
        chunks,
        state.etag.clone().unwrap_or_default()
    )
    .into_bytes()
}

fn decoded(payload: &[u8]) -> InlineDownloadState {
    let text = String::from_utf8(payload.to_vec()).unwrap();
    let lines: Vec<&str> = text.split('\n').collect();
    InlineDownloadState::new(
        DownloadKind::Http,
        lines[0].to_string(),
        lines[1].parse().unwrap(),
        lines[2].parse().unwrap(),
        lines[3].chars().map(|c| c == '1').collect(),
        Some(lines[4].to_string()).filter(|etag| !etag.is_empty()),
        None,
    )
}

fn write_state(world: &mut World, path: &str, total: usize, state: &InlineDownloadState) {
    let file = world.files.get_mut(path).unwrap();
    file.truncate(total);
    file.extend(footer_bytes(&encoded(state)));
}

fn read_state(world: &World, path: &str) -> Option<InlineDownloadState> {
    let file = world.files.get(path)?;
    if file.len() < 16 {
        return None;
    }
    let trailer = file[file.len() - 16..].to_vec();
    let (start, len) = find_payload(&trailer, file.len() as u64)?;
    Some(decoded(&file[start as usize..(start + len) as usize]))
}

fn probe(world: &World) -> Result<HttpProbe, DlError> {
    let mut stage = ProbeStage::FirstByte;
    loop {
        match probe_server(stage, Ok(respond(world, probe_range(stage)).0)) {
            ProbeStep::Ask(next) => stage = next,
            ProbeStep::Found(probe) => return Ok(probe),
            ProbeStep::Failed(error) => return Err(error),
        }
    }
}

fn fetch_once(world: &mut World, path: &str, segment: &Segment) -> Result<u64, DlError> {
    world.segment_requests += 1;
    world.ranges.push((segment.start, segment.end));
    let (head, body) = respond(world, Some(&range_header(segment)));
    send_range_request(segment, &head, Some(""))?;
    let mut stream = SegmentStream::new(*segment, 0);
    let mut at = segment.start as usize;
    let mut events = Vec::new();
    for piece in body.chunks(1000) {
        events.push((StreamEvent::Piece { len: piece.len() as u64 }, piece));
        events.push((StreamEvent::Written { now: 0 }, piece));
    }
    events.push((StreamEvent::Ended, &[]));
    let mut counted = 0;
    for (event, piece) in events {
        match stream_response_to_file(&mut stream, event) {
            StreamAction::Write => {
                let file = world.files.get_mut(path).unwrap();
                if file.len() < at + piece.len() {
                    file.resize(at + piece.len(), 0);
                }
                file[at..at + piece.len()].copy_from_slice(piece);
                at += piece.len();
            }
            StreamAction::Count { .. } => counted += piece.len() as u64,
            StreamAction::Flush => return Ok(counted),
            StreamAction::Fail(error) => return Err(error),
        }
    }
    unreachable!("the end of the body is the last event")
}

fn fetch(world: &mut World, path: &str, segment: &Segment) -> Result<u64, DlError> {
    let mut attempt = 1;
    loop {
        let fetched = fetch_once(world, path, segment);
        let counted = *fetched.as_ref().unwrap_or(&0);
        match download_segment(fetched.map(|_| ()), attempt, 0) {
            AttemptStep::Done => return Ok(counted),
            AttemptStep::Retry { wait_ms } => world.waited_ms += wait_ms,
            AttemptStep::Failed(error) => return Err(error),
        }
        attempt += 1;
    }
}

fn report(world: &mut World, board: &TransferBoard, phase: DownloadPhase, path: &str) {
    let report = board.report(true, phase, path).unwrap();
    if phase == DownloadPhase::Finalizing || phase == DownloadPhase::Complete {
        assert_eq!(report.downloaded_bytes, board.total_size);
        assert_eq!(report.total_bytes, Some(board.total_size));
        assert_eq!(report.active_workers, 0);
        assert_eq!(report.completed_chunks, report.total_chunks);
    }
    world.phases.push(phase);
}

fn work(world: &mut World, board: &mut TransferBoard, path: &str) -> Result<(), DlError> {
    let total = board.total_size as usize;
    let mut event = WorkerEvent::Ready;
    loop {
        event = match run_worker(board, event) {
            WorkerAction::Fetch(segment) => {
                let fetched = fetch(world, path, &segment);
                let _ = board.receive_bytes(*fetched.as_ref().unwrap_or(&0));
                WorkerEvent::Fetched { segment, outcome: fetched.map(|_| ()), now: 1 }
            }
            WorkerAction::Save { completed_count, .. } => {
                let state = board.persist_worker_state(0);
                write_state(world, path, total, &state);
                WorkerEvent::Saved { completed_count, outcome: Ok(()) }
            }
            WorkerAction::Report { .. } => WorkerEvent::Ready,
            WorkerAction::Stop => return Ok(()),
            WorkerAction::Fail(error) => return Err(error),
        };
    }
}

fn transfer_segments(
    world: &mut World,
    url: &String,
    path: &str,
    chunk_size: u64,
    options: &DownloadOptions,
) -> Result<DownloadSummary, DlError> {
    let probe = probe(world)?;
    let read = Ok(read_state(world, path));
    let plan = download_parallel(
        url,
        &probe,
        options.connections,
        chunk_size,
        0,
        options.resume,
        read,
        0,
    )?;
    let mut run = SegmentsRun::new(&plan);
    let mut board = plan.board;
    let mut event = RunEvent::Started;
    loop {
        let step = run_segments(&mut run, &board, path, event);
        for phase in step.reports {
            report(world, &board, phase, path);
        }
        event = match step.action {
            RunAction::MakeRoom { len } => {
                world.files.insert(path.to_string(), vec![0; len as usize]);
                RunEvent::RoomMade(Ok(()))
            }
            RunAction::StartWorkers { .. } | RunAction::AwaitWorker => {
                let outcome = work(world, &mut board, path);
                RunEvent::WorkerEnded(worker_outcome(Ok(outcome)))
            }
            RunAction::Clear { len } => {
                assert_eq!(board.downloaded, board.total_size);
                world.files.get_mut(path).unwrap().truncate(len as usize);
                RunEvent::Cleared(Ok(()))
            }
            RunAction::Finish(summary) => return Ok(summary),
            RunAction::Fail(error) => return Err(error),
        };
    }
}

fn run_stream(
    world: &mut World,
    url: &str,
    path: &str,
    start_offset: u64,
) -> Result<DownloadSummary, DlError> {
    let probe = probe(world)?;
    let range = single_stream_range(start_offset, probe.ranges_supported);
    let (head, body) = respond(world, range.as_deref());
    let step =
        download_single_stream(Ok(&head), None, start_offset, probe.ranges_supported, 1, 0);
    let offset = match step {
        SingleStep::Read { offset } => offset,
        other => panic!("{other:?}"),
    };
    let body = &body[..world.breaks_after.unwrap_or(body.len())];
    let file = world.files.entry(path.to_string()).or_default();
    file.truncate(offset as usize);
    let mut stream = SingleStream::start(offset, probe.total_size, Some(body.len() as u64), 0);
    for piece in body.chunks(1000) {
        file.extend_from_slice(piece);
        let _ = stream.receive(piece.len() as u64, 0);
    }
    stream.finish(url, path)
}

fn download(
    world: &mut World,
    url: &str,
    output: &str,
    options: DownloadOptions,
) -> Result<DownloadSummary, DlError> {
    let existing: Vec<String> = world.files.keys().cloned().collect();
    let (target, path) = determine_download_paths(output, options.overwrite, &existing);
    let options = options.normalized();
    let url = url.to_string();
    let mut course = HttpDownload::new(
        url.clone(),
        target.clone(),
        options.connections,
        options.chunk_size,
        options.resume,
    );
    let mut event = HttpEvent::Probed(probe(world));
    loop {
        event = match download_http(&mut course, event) {
            HttpAction::ReadState => HttpEvent::StateRead(Ok(read_state(world, &path))),
            HttpAction::ReadFileLength => {
                HttpEvent::FileLength(world.files.get(&path).map(|file| file.len() as u64))
            }
            HttpAction::RunSegments { chunk_size } => {
                HttpEvent::TransferDone(transfer_segments(
                    world, &url, &path, chunk_size, &options,
                ))
            }
            HttpAction::Wait { millis } => {
                world.waited_ms += millis as u128;
                HttpEvent::Waited
            }
            HttpAction::Truncate { len } => {
                world.files.get_mut(&path).unwrap().truncate(len as usize);
                HttpEvent::Truncated
            }
            HttpAction::RunStream { start_offset } => {
                HttpEvent::TransferDone(run_stream(world, &url, &path, start_offset))
            }
            HttpAction::Publish => {
                let file = world.files.remove(&path).unwrap();
                world.files.insert(target.clone(), file);
                HttpEvent::Published(Ok(()))
            }
            HttpAction::Finish(summary) => return Ok(summary),
            HttpAction::Fail(error) => return Err(error),
        };
    }
}

fn options() -> DownloadOptions {
    DownloadOptions { connections: 4, overwrite: true, ..DownloadOptions::default() }
}

fn state(url: &str, total: usize, chunk_size: usize, chunks: Vec<bool>) -> InlineDownloadState {
    InlineDownloadState::new(
        DownloadKind::Http,
        url.to_string(),
        total as u64,
        chunk_size as u64,
        chunks,
        Some("\"test\"".to_string()),
        None,
    )
}

#[test]
fn parallel_download_writes_file_and_clears_inline_state() {
    let data = served(512 * 1024);
    let mut world = world(&data);
    let options = DownloadOptions { chunk_size: 32 * 1024, ..options() };
    let summary = download(&mut world, "http://host/payload.bin", "payload.bin", options).unwrap();

    assert_eq!(summary.total_bytes, data.len() as u64);
    assert_eq!(summary.output_path, "payload.bin");
    assert_eq!(world.segment_requests, 16);
    assert_eq!(
        world.phases,
        vec![DownloadPhase::Downloading, DownloadPhase::Finalizing, DownloadPhase::Complete]
    );
    assert_eq!(world.files["payload.bin"], data);
    assert!(read_state(&world, "payload.bin").is_none());
}

#[test]
fn fallback_to_single_stream_on_rate_limit() {
    let data = served(128 * 1024);
    let mut world = world(&data);
    world.rate_limited = true;
    let options = DownloadOptions { chunk_size: 32 * 1024, ..options() };
    let summary =
        download(&mut world, "http://host/rate-limited.bin", "rate-limited.bin", options).unwrap();

    assert_eq!(summary.total_bytes, data.len() as u64);
    assert_eq!(world.files["rate-limited.bin"], data);
    assert!(read_state(&world, "rate-limited.bin").is_none());
    // Six attempts with waits of 3 to 7 seconds between them, and 3 seconds before the stream.
    assert_eq!(world.segment_requests, 6);
    assert_eq!(world.waited_ms, 28_000);
}

#[test]
fn resumes_from_existing_dl_file() {
    let data = served(256 * 1024);
    let mut world = world(&data);
    let chunk_size = 128 * 1024;
    let mut file = data[..chunk_size].to_vec();
    file.resize(data.len(), 0);
    world.files.insert("resume_test.bin.dl".to_string(), file);
    let url = "http://host/resume_test.bin";
    let saved = state(url, data.len(), chunk_size, vec![true, false]);
    write_state(&mut world, "resume_test.bin.dl", data.len(), &saved);

    let options = DownloadOptions { chunk_size: chunk_size as u64, resume: true, ..options() };
    let summary = download(&mut world, url, "resume_test.bin", options).unwrap();

    assert_eq!(summary.total_bytes, data.len() as u64);
    assert!(summary.resumed);
    assert_eq!(world.files["resume_test.bin"], data);
    assert!(!world.files.contains_key("resume_test.bin.dl"));
    assert!(read_state(&world, "resume_test.bin").is_none());
    assert_eq!(world.segment_requests, 1);
}

#[test]
fn resumes_from_existing_single_stream_file() {
    let data = served(256 * 1024);
    let mut world = world(&data);
    // An incomplete file without any inline parallel state
    let chunk_size = 128 * 1024;
    world.files.insert("resume_single_test.bin.dl".to_string(), data[..chunk_size].to_vec());

    let url = "http://host/resume_single_test.bin";
    let options = DownloadOptions { resume: true, ..options() };
    let summary = download(&mut world, url, "resume_single_test.bin", options).unwrap();

    assert_eq!(summary.total_bytes, data.len() as u64);
    assert!(summary.resumed);
    assert_eq!(world.files["resume_single_test.bin"], data);
    assert!(!world.files.contains_key("resume_single_test.bin.dl"));
    assert_eq!(world.segment_requests, 0);
}

#[test]
fn resumes_from_existing_dl_file_adopts_chunk_size() {
    let data = served(256 * 1024);
    let mut world = world(&data);
    let chunk_size = 128 * 1024;
    let mut file = data[..chunk_size].to_vec();
    file.resize(data.len(), 0);
    world.files.insert("resume_adopt_test.bin.dl".to_string(), file);
    let url = "http://host/resume_adopt_test.bin";
    let saved = state(url, data.len(), chunk_size, vec![true, false]);
    write_state(&mut world, "resume_adopt_test.bin.dl", data.len(), &saved);

    // No chunk size is asked for, so that of the state is adopted.
    let options = DownloadOptions { resume: true, ..options() };
    let summary = download(&mut world, url, "resume_adopt_test.bin", options).unwrap();

    assert_eq!(summary.total_bytes, data.len() as u64);
    assert!(summary.resumed);
    assert_eq!(world.files["resume_adopt_test.bin"], data);
    assert!(!world.files.contains_key("resume_adopt_test.bin.dl"));
    assert!(read_state(&world, "resume_adopt_test.bin").is_none());
    assert_eq!(world.segment_requests, 1);
}

#[test]
fn resumes_from_a_state_with_default_chunks() {
    let data = served(8 * 1024 * 1024);
    let mut world = world(&data);
    let chunk_size = 2 * 1024 * 1024;
    let mut file = data[..chunk_size].to_vec();
    file.resize(data.len(), 0);
    world.files.insert("file.dl".to_string(), file);
    let url = "http://host/file";
    let saved = state(url, data.len(), chunk_size, vec![true, false, false, false]);
    write_state(&mut world, "file.dl", data.len(), &saved);

    let options = DownloadOptions { resume: true, ..options() };
    let summary = download(&mut world, url, "file", options).unwrap();
    assert!(summary.resumed);
    assert_eq!(world.segment_requests, 3);
    assert!(world.ranges.iter().all(|(start, _)| *start >= 2097152));
    assert_eq!(world.files["file"], data);
}

#[test]
fn a_state_with_every_chunk_is_closed_like_any_other() {
    let data = served(64 * 1024);
    let mut world = world(&data);
    world.files.insert("file.dl".to_string(), data.clone());
    let url = "http://host/file";
    let saved = state(url, data.len(), 32 * 1024, vec![true, true]);
    write_state(&mut world, "file.dl", data.len(), &saved);
    let summary = download(&mut world, url, "file", options()).unwrap();
    assert!(summary.resumed);
    assert_eq!(world.segment_requests, 0);
    assert_eq!(world.files["file"], data);
    assert_eq!(
        world.phases,
        vec![DownloadPhase::Downloading, DownloadPhase::Finalizing, DownloadPhase::Complete]
    );
}

#[test]
fn segments_start_anew_without_resuming() {
    let data = served(64 * 1024);
    let url = "http://host/file";
    let saved = state(url, data.len(), 32 * 1024, vec![true, false]);
    let mut summaries = Vec::new();
    for left in [None, Some(vec![9_u8; 64 * 1024])] {
        let mut world = world(&data);
        if let Some(file) = left {
            world.files.insert("file.dl".to_string(), file);
            write_state(&mut world, "file.dl", data.len(), &saved);
        }
        let options = DownloadOptions { chunk_size: 32 * 1024, resume: false, ..options() };
        summaries.push(download(&mut world, url, "file", options).unwrap());
        assert_eq!(world.segment_requests, 2);
        assert_eq!(world.files["file"], data);
    }
    assert!(!summaries[0].resumed);
    assert_eq!(summaries[0], summaries[1]);
}

#[test]
fn a_stream_that_breaks_off_is_no_success() {
    let data = served(64 * 1024);
    let mut world = world(&data);
    world.breaks_after = Some(1000);
    let options = DownloadOptions { connections: 1, ..options() };
    assert_eq!(
        download(&mut world, "http://host/file", "file", options),
        Err(DlError::InvalidResponse(
            "single stream wrote 1000 bytes, expected 65536".to_string()
        ))
    );
    assert!(!world.files.contains_key("file"));

    // What came in is there for the next download.
    world.breaks_after = None;
    let options = DownloadOptions { connections: 1, ..self::options() };
    let summary = download(&mut world, "http://host/file", "file", options).unwrap();
    assert!(summary.resumed);
    assert_eq!(world.files["file"], data);
}

#[test]
fn one_stream_keeps_nothing_of_another_file() {
    let data = served(1000);
    let mut world = world(&data);
    let url = "http://host/file";
    world.files.insert("file.dl".to_string(), vec![7; 100]);
    let mut saved = state(url, 100, 50, vec![true, true]);
    saved.etag = Some("\"other\"".to_string());
    write_state(&mut world, "file.dl", 100, &saved);
    assert!(world.files["file.dl"].len() < 1000);

    let options = DownloadOptions { connections: 1, ..options() };
    let summary = download(&mut world, url, "file", options).unwrap();
    assert!(!summary.resumed);
    assert_eq!(world.files["file"], data);
}

#[test]
fn an_existing_file_is_kept() {
    let data = served(64 * 1024);
    let mut world = world(&data);
    world.files.insert("file.zip".to_string(), vec![1, 2, 3]);
    let options = DownloadOptions { overwrite: false, ..options() };
    let summary = download(&mut world, "http://host/file.zip", "file.zip", options).unwrap();
    assert_eq!(summary.output_path, "file.zip.1");
    assert_eq!(world.files["file.zip"], vec![1, 2, 3]);
    assert_eq!(world.files["file.zip.1"], data);
}

#[test]
fn one_connection_is_one_stream() {
    let data = served(64 * 1024);
    let mut world = world(&data);
    let options = DownloadOptions { connections: 1, ..options() };
    let summary = download(&mut world, "http://host/file", "file", options).unwrap();
    assert!(!summary.resumed);
    assert_eq!(world.segment_requests, 0);
    assert_eq!(world.files["file"], data);
}

#[test]
fn without_resuming_the_disk_is_ignored() {
    let data = served(64 * 1024);
    let mut world = world(&data);
    world.files.insert("file.dl".to_string(), vec![7; 1000]);
    let options = DownloadOptions { connections: 1, resume: false, ..options() };
    let summary = download(&mut world, "http://host/file", "file", options).unwrap();
    assert!(!summary.resumed);
    assert_eq!(world.files["file"], data);
}

#[test]
fn a_footer_gives_back_its_payload() {
    let payload = b"state of the download".to_vec();
    let data = vec![5_u8; 100];
    let mut file = data.clone();
    file.extend(footer_bytes(&payload));
    assert_eq!(file.len(), 100 + payload.len() + 16);
    assert_eq!(&file[file.len() - 8..], b"DLSTATE1");
    let trailer = file[file.len() - 16..].to_vec();
    let (start, len) = find_payload(&trailer, file.len() as u64).unwrap();
    assert_eq!(&file[start as usize..(start + len) as usize], &payload[..]);
    file.truncate(100);
    assert_eq!(file, data);
}

#[test]
fn a_file_without_a_footer_has_no_payload() {
    assert_eq!(find_payload(&vec![0; 16], 100), None);
    let footer = footer_bytes(&vec![1, 2, 3]);
    let trailer = footer[3..].to_vec();
    assert_eq!(find_payload(&trailer, 19), Some((0, 3)));
    // The payload would begin before the file does.
    assert_eq!(find_payload(&trailer, 18), None);
}

fn found(total_size: Option<u64>, ranges_supported: bool) -> HttpProbe {
    HttpProbe {
        total_size,
        ranges_supported,
        etag: Some("\"test\"".to_string()),
        last_modified: None,
    }
}

#[test]
fn chunk_sizes_are_adopted_of_the_same_file_only() {
    let url = "u".to_string();
    let saved = || Some(state("u", 100, 7, vec![]));
    assert_eq!(adopt_chunk_size(&saved(), &url, &found(Some(100), true)), Some(7));
    assert_eq!(adopt_chunk_size(&saved(), &url, &found(Some(101), true)), None);
    assert_eq!(adopt_chunk_size(&saved(), &url, &found(None, true)), None);
    assert_eq!(adopt_chunk_size(&None, &url, &found(Some(100), true)), None);
    assert_eq!(adopt_chunk_size(&saved(), &"v".to_string(), &found(Some(100), true)), None);
}

#[test]
fn one_stream_keeps_what_has_no_gap() {
    let url = "u".to_string();
    let saved = Some(state("u", 100, 30, vec![true, true, false, true]));
    assert_eq!(offset_from_state(&saved, &url, &found(Some(100), true), 30), 60);
    assert_eq!(offset_from_state(&saved, &url, &found(Some(100), true), 31), 0);
    assert_eq!(offset_from_state(&saved, &url, &found(None, true), 30), 0);
    assert_eq!(offset_from_state(&None, &url, &found(Some(100), true), 30), 0);
}

fn course(connections: usize, chunk_size: u64, resume: bool) -> HttpDownload {
    HttpDownload::new("u".to_string(), "target".to_string(), connections, chunk_size, resume)
}

#[test]
fn default_chunks_give_way_to_fitting_ones() {
    let mut download = course(8, 2 * 1024 * 1024, false);
    let probed = HttpEvent::Probed(Ok(found(Some(500 * 1024 * 1024), true)));
    assert_eq!(
        download_http(&mut download, probed),
        HttpAction::RunSegments { chunk_size: 32000 * 1024 }
    );
    let mut download = course(8, 1000, false);
    let probed = HttpEvent::Probed(Ok(found(Some(500 * 1024 * 1024), true)));
    assert_eq!(download_http(&mut download, probed), HttpAction::RunSegments { chunk_size: 1000 });
}

#[test]
fn a_saved_default_chunk_size_is_kept() {
    let mut download = course(4, 2 * 1024 * 1024, true);
    let total = 8 * 1024 * 1024;
    let probed = HttpEvent::Probed(Ok(found(Some(total), true)));
    assert_eq!(download_http(&mut download, probed), HttpAction::ReadState);
    let saved = || state("u", total as usize, 2 * 1024 * 1024, vec![true; 4]);
    let read = HttpEvent::StateRead(Ok(Some(saved())));
    assert_eq!(download_http(&mut download, read), HttpAction::ReadFileLength);
    let length = HttpEvent::FileLength(Some(total));
    assert_eq!(download_http(&mut download, length), HttpAction::ReadState);
    let read = HttpEvent::StateRead(Ok(Some(saved())));
    assert_eq!(
        download_http(&mut download, read),
        HttpAction::RunSegments { chunk_size: 2097152 }
    );
}

#[test]
fn failures_of_segments() {
    let run = |error: DlError| {
        let mut download = course(4, 1000, false);
        let probed = HttpEvent::Probed(Ok(found(Some(5000), true)));
        let _ = download_http(&mut download, probed);
        assert_eq!(download.stage, Stage::Segments);
        download_http(&mut download, HttpEvent::TransferDone(Err(error)))
    };
    let limited = DlError::RateLimited { message: String::new(), retry_after: Some(99) };
    assert_eq!(run(limited), HttpAction::Wait { millis: 3000 });
    assert_eq!(
        run(DlError::ServerError("x".to_string())),
        HttpAction::RunStream { start_offset: 0 }
    );
    assert_eq!(run(DlError::Io("full".to_string())), HttpAction::Fail(DlError::Io("full".to_string())));
}

#[test]
fn a_stream_in_place_of_segments_keeps_what_has_no_gap() {
    let mut download = course(4, 1000, true);
    let _ = download_http(&mut download, HttpEvent::Probed(Ok(found(Some(5000), true))));
    let _ = download_http(&mut download, HttpEvent::StateRead(Ok(None)));
    let _ = download_http(&mut download, HttpEvent::FileLength(None));
    assert_eq!(download.stage, Stage::Segments);
    let reset = DlError::Http("reset".to_string());
    assert_eq!(
        download_http(&mut download, HttpEvent::TransferDone(Err(reset))),
        HttpAction::ReadState
    );
    let saved = state("u", 5000, 1000, vec![true, true, false, true, false]);
    assert_eq!(
        download_http(&mut download, HttpEvent::StateRead(Ok(Some(saved)))),
        HttpAction::Truncate { len: 2000 }
    );
    assert_eq!(
        download_http(&mut download, HttpEvent::Truncated),
        HttpAction::RunStream { start_offset: 2000 }
    );
}

#[test]
fn one_stream_goes_on_from_a_file_whose_state_is_unreadable() {
    let mut download = course(1, 1000, true);
    let unread = || HttpEvent::StateRead(Err(DlError::Serialization("x".to_string())));
    let _ = download_http(&mut download, HttpEvent::Probed(Ok(found(Some(5000), true))));
    assert_eq!(download_http(&mut download, unread()), HttpAction::ReadState);
    assert_eq!(download_http(&mut download, unread()), HttpAction::ReadFileLength);
    assert_eq!(
        download_http(&mut download, HttpEvent::FileLength(Some(1200))),
        HttpAction::Truncate { len: 1200 }
    );
    assert_eq!(
        download_http(&mut download, HttpEvent::Truncated),
        HttpAction::RunStream { start_offset: 1200 }
    );
}

#[test]
fn failures_of_a_run() {
    let plan = download_parallel(
        &"u".to_string(),
        &found(Some(5000), true),
        2,
        1000,
        0,
        true,
        Ok(None),
        0,
    );
    let Ok(plan) = plan else { panic!("no plan") };
    let full = || DlError::Io("full".to_string());
    let mut run = SegmentsRun::new(&plan);
    let step = run_segments(&mut run, &plan.board, "o", RunEvent::Started);
    assert_eq!(step.action, RunAction::MakeRoom { len: 5000 });
    let mut refused = run;
    let step = run_segments(&mut refused, &plan.board, "o", RunEvent::RoomMade(Err(full())));
    assert_eq!(step.action, RunAction::Fail(full()));
    let step = run_segments(&mut run, &plan.board, "o", RunEvent::RoomMade(Ok(())));
    assert_eq!(step.action, RunAction::StartWorkers { count: 2 });
    let step = run_segments(&mut run, &plan.board, "o", RunEvent::WorkerEnded(Ok(())));
    assert_eq!(step.action, RunAction::AwaitWorker);
    let step = run_segments(&mut run, &plan.board, "o", RunEvent::WorkerEnded(Err(full())));
    assert_eq!(step.action, RunAction::Fail(full()));
    assert_eq!(step.reports, vec![]);
}

#[test]
fn unreadable_states_do_not_stop_segments() {
    let mut download = course(4, 1000, true);
    let unread = || HttpEvent::StateRead(Err(DlError::Serialization("x".to_string())));
    let _ = download_http(&mut download, HttpEvent::Probed(Ok(found(Some(5000), true))));
    assert_eq!(download_http(&mut download, unread()), HttpAction::ReadFileLength);
    let _ = download_http(&mut download, HttpEvent::FileLength(Some(7)));
    assert_eq!(
        download_http(&mut download, unread()),
        HttpAction::RunSegments { chunk_size: 1000 }
    );
}

#[test]
fn failures_of_the_course() {
    let refused = || DlError::Http("refused".to_string());
    let mut download = course(4, 1000, true);
    assert_eq!(
        download_http(&mut download, HttpEvent::Probed(Err(refused()))),
        HttpAction::Fail(refused())
    );
    assert_eq!(download.stage, Stage::Ended);
    let mut download = course(1, 1000, false);
    let _ = download_http(&mut download, HttpEvent::Probed(Ok(found(None, false))));
    assert_eq!(
        download_http(&mut download, HttpEvent::TransferDone(Err(refused()))),
        HttpAction::Fail(refused())
    );
}

#[test]
fn a_file_that_cannot_be_published_is_no_success() {
    let mut download = course(1, 1000, false);
    let _ = download_http(&mut download, HttpEvent::Probed(Ok(found(None, false))));
    let summary = SingleStream::start(0, None, None, 0).finish("u", "target.dl").unwrap();
    assert_eq!(
        download_http(&mut download, HttpEvent::TransferDone(Ok(summary))),
        HttpAction::Publish
    );
    let denied = || DlError::Io("denied".to_string());
    assert_eq!(
        download_http(&mut download, HttpEvent::Published(Err(denied()))),
        HttpAction::Fail(denied())
    );
}

#[test]
fn a_longer_file_is_not_kept() {
    let mut download = course(1, 1000, true);
    let _ = download_http(&mut download, HttpEvent::Probed(Ok(found(Some(50), true))));
    let _ = download_http(&mut download, HttpEvent::StateRead(Ok(None)));
    assert_eq!(
        download_http(&mut download, HttpEvent::StateRead(Ok(None))),
        HttpAction::ReadFileLength
    );
    assert_eq!(
        download_http(&mut download, HttpEvent::FileLength(Some(50))),
        HttpAction::RunStream { start_offset: 0 }
    );
}
