//! The course of an HTTP download: probe, then segments or one stream, then the final name.
use crate::chunks;
use crate::error;
use crate::error::{DlError, DlErrorView};
use crate::headers;
use crate::parallel;
use crate::probe::{HttpProbe, ProbeView};
use crate::state;
use crate::state::{InlineDownloadState, StateView};
use crate::types::{DownloadKind, DownloadSummary, SummaryView};
use vstd::prelude::*;
use vstd::string::*;

verus! {

/// Milliseconds between a rate-limited download in segments and the one stream that replaces it.
pub const FALLBACK_WAIT_MS: u64 = 3000;

/// What a download waits for.
#[derive(Clone, Copy, Debug, PartialEq, Eq, Structural)]
pub enum Stage {
    /// The probe of the server.
    Probing,
    /// The saved state, whose chunk size may be taken over.
    AdoptingState,
    /// The length of the file, before a download in segments.
    CheckingFile,
    /// The saved state, without which a file that is there belongs to one stream.
    CheckingState,
    /// The download in segments.
    Segments,
    /// The end of the wait after a rate limit.
    Waiting,
    /// The saved state, before a download in one stream.
    ResumingState,
    /// The length of the file, before a download in one stream.
    ResumingFile,
    /// The file cut to the bytes that are kept.
    Truncating { start_offset: u64 },
    /// The download in one stream.
    Stream { start_offset: u64 },
    /// The final name of the file.
    Publishing,
    /// Nothing.
    Ended,
}

/// An HTTP download on its way.
#[derive(Debug)]
pub struct HttpDownload {
    pub url: String,
    /// The final path of the file.
    pub target: String,
    pub connections: usize,
    pub chunk_size: u64,
    /// The chunk size is that of a saved state of this file.
    pub adopted: bool,
    pub resume: bool,
    /// What the probe found, once it is done.
    pub probe: Option<HttpProbe>,
    /// The outcome of the transfer, once it is done.
    pub summary: Option<DownloadSummary>,
    pub stage: Stage,
}

/// An `HttpDownload` with the characters of its texts.
pub struct HttpView {
    pub url: Seq<char>,
    pub target: Seq<char>,
    pub connections: usize,
    pub chunk_size: u64,
    pub adopted: bool,
    pub resume: bool,
    pub probe: Option<ProbeView>,
    pub summary: Option<SummaryView>,
    pub stage: Stage,
}

impl View for HttpDownload {
    type V = HttpView;

    open spec fn view(&self) -> HttpView {
        HttpView {
            url: self.url@,
            target: self.target@,
            connections: self.connections,
            chunk_size: self.chunk_size,
            adopted: self.adopted,
            resume: self.resume,
            probe: match self.probe {
                Some(probe) => Some(probe@),
                None => None,
            },
            summary: match self.summary {
                Some(summary) => Some(summary@),
                None => None,
            },
            stage: self.stage,
        }
    }
}

/// What happened outside.
#[derive(Debug)]
pub enum HttpEvent {
    Probed(Result<HttpProbe, DlError>),
    /// The state that is saved with the unfinished file, if there is one and it can be read.
    StateRead(Result<Option<InlineDownloadState>, DlError>),
    /// The length of the unfinished file, if there is one.
    FileLength(Option<u64>),
    TransferDone(Result<DownloadSummary, DlError>),
    Waited,
    Truncated,
    Published(Result<(), DlError>),
}

pub enum HttpEventView {
    Probed(Result<ProbeView, DlErrorView>),
    StateRead(Result<Option<StateView>, DlErrorView>),
    FileLength(Option<u64>),
    TransferDone(Result<SummaryView, DlErrorView>),
    Waited,
    Truncated,
    Published(Result<(), DlErrorView>),
}

impl View for HttpEvent {
    type V = HttpEventView;

    open spec fn view(&self) -> HttpEventView {
        match *self {
            HttpEvent::Probed(Ok(probe)) => HttpEventView::Probed(Ok(probe@)),
            HttpEvent::Probed(Err(error)) => HttpEventView::Probed(Err(error@)),
            HttpEvent::StateRead(read) => HttpEventView::StateRead(parallel::read_view(read)),
            HttpEvent::FileLength(len) => HttpEventView::FileLength(len),
            HttpEvent::TransferDone(Ok(summary)) => HttpEventView::TransferDone(Ok(summary@)),
            HttpEvent::TransferDone(Err(error)) => HttpEventView::TransferDone(Err(error@)),
            HttpEvent::Waited => HttpEventView::Waited,
            HttpEvent::Truncated => HttpEventView::Truncated,
            HttpEvent::Published(Ok(())) => HttpEventView::Published(Ok(())),
            HttpEvent::Published(Err(error)) => HttpEventView::Published(Err(error@)),
        }
    }
}

/// What is to be done outside next.
#[derive(Debug, PartialEq, Eq)]
pub enum HttpAction {
    ReadState,
    ReadFileLength,
    /// Download in segments of this size.
    RunSegments { chunk_size: u64 },
    Wait { millis: u64 },
    /// Cut the unfinished file to this length.
    Truncate { len: u64 },
    /// Download in one stream from this offset on.
    RunStream { start_offset: u64 },
    /// Give the file its final name.
    Publish,
    Finish(DownloadSummary),
    Fail(DlError),
}

pub enum HttpActionView {
    ReadState,
    ReadFileLength,
    RunSegments { chunk_size: u64 },
    Wait { millis: u64 },
    Truncate { len: u64 },
    RunStream { start_offset: u64 },
    Publish,
    Finish(SummaryView),
    Fail(DlErrorView),
}

impl View for HttpAction {
    type V = HttpActionView;

    open spec fn view(&self) -> HttpActionView {
        match *self {
            HttpAction::ReadState => HttpActionView::ReadState,
            HttpAction::ReadFileLength => HttpActionView::ReadFileLength,
            HttpAction::RunSegments { chunk_size } => HttpActionView::RunSegments { chunk_size },
            HttpAction::Wait { millis } => HttpActionView::Wait { millis },
            HttpAction::Truncate { len } => HttpActionView::Truncate { len },
            HttpAction::RunStream { start_offset } => HttpActionView::RunStream { start_offset },
            HttpAction::Publish => HttpActionView::Publish,
            HttpAction::Finish(summary) => HttpActionView::Finish(summary@),
            HttpAction::Fail(error) => HttpActionView::Fail(error@),
        }
    }
}

/// The state that was read, if there is one.
pub open spec fn found_state(saved: Result<Option<StateView>, DlErrorView>) -> Option<StateView> {
    match saved {
        Ok(found) => found,
        Err(_) => None,
    }
}

/// The chunk size that a download takes over from this state: the state's own, if it is of this
/// file.
pub open spec fn adopted_chunk_size(
    saved: Option<StateView>,
    url: Seq<char>,
    probe: ProbeView,
) -> Option<u64> {
    match (saved, probe.total_size) {
        (Some(state), Some(total_size)) => if state::same_file(
            state,
            DownloadKind::Http,
            url,
            total_size,
            probe.etag,
            probe.last_modified,
        ) {
            Some(state.chunk_size)
        } else {
            None
        },
        _ => None,
    }
}

/// The download with the chunk size that it takes over, if there is one.
pub open spec fn adopt(d: HttpView, chunk_size: Option<u64>) -> HttpView {
    match chunk_size {
        Some(size) => HttpView { chunk_size: size, adopted: true, ..d },
        None => d,
    }
}

/// Segments need a server that sends ranges, a known size, and more than one connection.
pub open spec fn wants_segments(probe: ProbeView, connections: usize) -> bool {
    probe.ranges_supported && probe.total_size is Some && connections > 1
}

/// The chunk size of a download in segments: the default gives way to one that fits the file,
/// unless chunks of that size are there already.
pub open spec fn segment_chunk_size(
    chunk_size: u64,
    adopted: bool,
    total_size: u64,
    connections: usize,
) -> u64 {
    if chunk_size == chunks::DEFAULT_CHUNK_SIZE && !adopted {
        chunks::dynamic_chunk_size(total_size as int, connections as int) as u64
    } else {
        chunk_size
    }
}

/// The bytes that one stream can keep of a download in segments: those before the first gap.
pub open spec fn saved_offset(
    saved: Option<StateView>,
    url: Seq<char>,
    probe: ProbeView,
    chunk_size: u64,
) -> u64 {
    match (saved, probe.total_size) {
        (Some(state), Some(total_size)) => if state::compatible(
            state,
            DownloadKind::Http,
            url,
            total_size,
            chunk_size,
            probe.etag,
            probe.last_modified,
        ) {
            chunks::run_size(
                chunks::leading_run(state.completed_chunks) as int,
                total_size as int,
                chunk_size as int,
            ) as u64
        } else {
            0
        },
        _ => 0,
    }
}

/// The bytes that one stream can keep of a file without a saved state that can be read: all of
/// them, if the file is shorter than it is going to be.
pub open spec fn file_offset(file_len: Option<u64>, probe: ProbeView) -> u64 {
    match (file_len, probe.total_size) {
        (Some(len), Some(total_size)) => if len < total_size {
            len
        } else {
            0
        },
        _ => 0,
    }
}

pub open spec fn enter_stream(d: HttpView, start_offset: u64) -> (HttpView, HttpActionView) {
    if start_offset > 0 {
        (
            HttpView { stage: Stage::Truncating { start_offset }, ..d },
            HttpActionView::Truncate { len: start_offset },
        )
    } else {
        (
            HttpView { stage: Stage::Stream { start_offset: 0 }, ..d },
            HttpActionView::RunStream { start_offset: 0 },
        )
    }
}

pub open spec fn choose_offset(d: HttpView) -> (HttpView, HttpActionView) {
    if d.resume {
        (HttpView { stage: Stage::ResumingState, ..d }, HttpActionView::ReadState)
    } else {
        enter_stream(d, 0)
    }
}

pub open spec fn enter_segments(d: HttpView) -> (HttpView, HttpActionView) {
    let chunk_size = segment_chunk_size(
        d.chunk_size,
        d.adopted,
        d.probe->Some_0.total_size->Some_0,
        d.connections,
    );
    (
        HttpView { stage: Stage::Segments, chunk_size, ..d },
        HttpActionView::RunSegments { chunk_size },
    )
}

pub open spec fn choose_way(d: HttpView) -> (HttpView, HttpActionView) {
    if !wants_segments(d.probe->Some_0, d.connections) {
        choose_offset(d)
    } else if d.resume {
        (HttpView { stage: Stage::CheckingFile, ..d }, HttpActionView::ReadFileLength)
    } else {
        enter_segments(d)
    }
}

pub open spec fn give_up(d: HttpView, error: DlErrorView) -> (HttpView, HttpActionView) {
    (HttpView { stage: Stage::Ended, ..d }, HttpActionView::Fail(error))
}

/// The event is the one that the download waits for.
pub open spec fn expects(stage: Stage, event: HttpEventView) -> bool {
    match stage {
        Stage::Probing => event is Probed,
        Stage::AdoptingState => event is StateRead,
        Stage::CheckingFile => event is FileLength,
        Stage::CheckingState => event is StateRead,
        Stage::Segments => event is TransferDone,
        Stage::Waiting => event is Waited,
        Stage::ResumingState => event is StateRead,
        Stage::ResumingFile => event is FileLength,
        Stage::Truncating { start_offset } => event is Truncated,
        Stage::Stream { start_offset } => event is TransferDone,
        Stage::Publishing => event is Published,
        Stage::Ended => false,
    }
}

/// What a download is and does after an event that it waits for.
pub open spec fn http_next(d: HttpView, event: HttpEventView) -> (HttpView, HttpActionView) {
    match (d.stage, event) {
        (Stage::Probing, HttpEventView::Probed(Ok(probe))) => {
            let d = HttpView { probe: Some(probe), ..d };
            if d.resume {
                (HttpView { stage: Stage::AdoptingState, ..d }, HttpActionView::ReadState)
            } else {
                choose_way(d)
            }
        },
        (Stage::Probing, HttpEventView::Probed(Err(error))) => give_up(d, error),
        (Stage::AdoptingState, HttpEventView::StateRead(saved)) => choose_way(
            adopt(d, adopted_chunk_size(found_state(saved), d.url, d.probe->Some_0)),
        ),
        (Stage::CheckingFile, HttpEventView::FileLength(len)) => if len is Some && len->Some_0
            > 0 {
            (HttpView { stage: Stage::CheckingState, ..d }, HttpActionView::ReadState)
        } else {
            enter_segments(d)
        },
        (Stage::CheckingState, HttpEventView::StateRead(saved)) => if saved == Ok::<
            Option<StateView>,
            DlErrorView,
        >(None) {
            choose_offset(d)
        } else {
            enter_segments(d)
        },
        (Stage::Segments, HttpEventView::TransferDone(Ok(summary))) => (
            HttpView { stage: Stage::Publishing, summary: Some(summary), ..d },
            HttpActionView::Publish,
        ),
        (Stage::Segments, HttpEventView::TransferDone(Err(error))) => if !error::retryable(error) {
            give_up(d, error)
        } else if error is RateLimited {
            (
                HttpView { stage: Stage::Waiting, ..d },
                HttpActionView::Wait { millis: FALLBACK_WAIT_MS },
            )
        } else {
            choose_offset(d)
        },
        (Stage::Waiting, HttpEventView::Waited) => choose_offset(d),
        (Stage::ResumingState, HttpEventView::StateRead(saved)) => if found_state(saved) is None
            && d.probe->Some_0.ranges_supported {
            (HttpView { stage: Stage::ResumingFile, ..d }, HttpActionView::ReadFileLength)
        } else {
            enter_stream(
                d,
                saved_offset(found_state(saved), d.url, d.probe->Some_0, d.chunk_size),
            )
        },
        (Stage::ResumingFile, HttpEventView::FileLength(len)) => enter_stream(
            d,
            file_offset(len, d.probe->Some_0),
        ),
        (Stage::Truncating { start_offset }, HttpEventView::Truncated) => (
            HttpView { stage: Stage::Stream { start_offset }, ..d },
            HttpActionView::RunStream { start_offset },
        ),
        (Stage::Stream { start_offset }, HttpEventView::TransferDone(Ok(summary))) => (
            HttpView { stage: Stage::Publishing, summary: Some(summary), ..d },
            HttpActionView::Publish,
        ),
        (Stage::Stream { start_offset }, HttpEventView::TransferDone(Err(error))) => give_up(
            d,
            error,
        ),
        (Stage::Publishing, HttpEventView::Published(Ok(()))) => (
            HttpView { stage: Stage::Ended, summary: None, ..d },
            HttpActionView::Finish(SummaryView { output_path: d.target, ..d.summary->Some_0 }),
        ),
        (Stage::Publishing, HttpEventView::Published(Err(error))) => give_up(d, error),
        _ => arbitrary(),
    }
}

/// A transfer brought the whole file: as many bytes as it has, and as many as the probe told of.
pub open spec fn whole_transfer(probe: ProbeView, summary: SummaryView) -> bool {
    &&& summary.downloaded_bytes == summary.total_bytes
    &&& probe.total_size is Some ==> summary.total_bytes == probe.total_size->Some_0
}

/// A saved state that was read has chunks of at least one byte, and a transfer that succeeded
/// brought the whole file and took up an earlier one only if it was to.
pub open spec fn sound_event(d: HttpView, event: HttpEventView) -> bool {
    match event {
        HttpEventView::StateRead(Ok(Some(saved))) => saved.chunk_size > 0,
        HttpEventView::TransferDone(Ok(summary)) => {
            &&& whole_transfer(d.probe->Some_0, summary)
            &&& summary.resumed ==> d.resume
        },
        _ => true,
    }
}

/// What holds of a download at every moment.
pub open spec fn http_invariant(d: HttpView) -> bool {
    let early = d.stage == Stage::Probing;
    &&& d.chunk_size > 0
    &&& d.adopted ==> d.resume
    &&& early ==> d.probe is None
    &&& !early && d.stage != Stage::Ended ==> d.probe is Some
    &&& d.stage == Stage::CheckingFile || d.stage == Stage::CheckingState || d.stage
        == Stage::Segments ==> wants_segments(d.probe->Some_0, d.connections)
    &&& d.stage == Stage::AdoptingState || d.stage == Stage::CheckingFile || d.stage
        == Stage::CheckingState || d.stage == Stage::ResumingState || d.stage
        == Stage::ResumingFile ==> d.resume
    &&& match d.stage {
        Stage::Truncating { start_offset } => start_offset > 0 && good_offset(d, start_offset),
        Stage::Stream { start_offset } => start_offset > 0 ==> good_offset(d, start_offset),
        _ => true,
    }
    &&& d.stage == Stage::Publishing ==> {
        &&& d.summary is Some
        &&& whole_transfer(d.probe->Some_0, d.summary->Some_0)
        &&& d.summary->Some_0.resumed ==> d.resume
    }
}

/// An offset is only ever kept of a file that is taken up again and whose size is known.
pub open spec fn good_offset(d: HttpView, start_offset: u64) -> bool {
    &&& d.resume
    &&& d.probe->Some_0.total_size is Some
    &&& start_offset <= d.probe->Some_0.total_size->Some_0
}

impl HttpDownload {
    pub open spec fn wf(self) -> bool {
        http_invariant(self@)
    }

    /// A download that is about to probe the server.
    pub fn new(
        url: String,
        target: String,
        connections: usize,
        chunk_size: u64,
        resume: bool,
    ) -> (r: HttpDownload)
        requires
            chunk_size > 0,
        ensures
            r.wf(),
            r@ == (HttpView {
                url: url@,
                target: target@,
                connections,
                chunk_size,
                adopted: false,
                resume,
                probe: None,
                summary: None,
                stage: Stage::Probing,
            }),
    {
        HttpDownload {
            url,
            target,
            connections,
            chunk_size,
            adopted: false,
            resume,
            probe: None,
            summary: None,
            stage: Stage::Probing,
        }
    }
}

/// The chunk size that a download takes over from this state.
pub fn adopt_chunk_size(
    saved: &Option<InlineDownloadState>,
    url: &String,
    probe: &HttpProbe,
) -> (r: Option<u64>)
    ensures
        r == adopted_chunk_size(parallel::opt_state(*saved), url@, probe@),
{
    match (saved, probe.total_size) {
        (Some(state), Some(total_size)) => {
            if state.is_same_file(
                DownloadKind::Http,
                url,
                total_size,
                &probe.etag,
                &probe.last_modified,
            ) {
                Some(state.chunk_size)
            } else {
                None
            }
        },
        _ => None,
    }
}

/// The bytes that one stream can keep of a download in segments.
pub fn offset_from_state(
    saved: &Option<InlineDownloadState>,
    url: &String,
    probe: &HttpProbe,
    chunk_size: u64,
) -> (r: u64)
    ensures
        r == saved_offset(parallel::opt_state(*saved), url@, probe@, chunk_size),
        r > 0 ==> probe.total_size is Some && r <= probe.total_size->Some_0,
{
    match (saved, probe.total_size) {
        (Some(state), Some(total_size)) => {
            if state.is_compatible_with(
                DownloadKind::Http,
                url,
                total_size,
                chunk_size,
                &probe.etag,
                &probe.last_modified,
            ) {
                chunks::contiguous_completed_bytes(
                    state.completed_chunks.as_slice(),
                    total_size,
                    chunk_size,
                )
            } else {
                0
            }
        },
        _ => 0,
    }
}

impl HttpDownload {
    fn enter_stream(&mut self, start_offset: u64) -> (r: HttpAction)
        ensures
            (final(self)@, r@) == enter_stream(old(self)@, start_offset),
    {
        if start_offset > 0 {
            self.stage = Stage::Truncating { start_offset };
            HttpAction::Truncate { len: start_offset }
        } else {
            self.stage = Stage::Stream { start_offset: 0 };
            HttpAction::RunStream { start_offset: 0 }
        }
    }

    fn choose_offset(&mut self) -> (r: HttpAction)
        ensures
            (final(self)@, r@) == choose_offset(old(self)@),
    {
        if self.resume {
            self.stage = Stage::ResumingState;
            HttpAction::ReadState
        } else {
            self.enter_stream(0)
        }
    }

    fn enter_segments(&mut self, total_size: u64) -> (r: HttpAction)
        requires
            old(self).probe is Some,
            old(self).probe->Some_0.total_size == Some(total_size),
        ensures
            (final(self)@, r@) == enter_segments(old(self)@),
    {
        if self.chunk_size == chunks::DEFAULT_CHUNK_SIZE && !self.adopted {
            self.chunk_size = chunks::calculate_dynamic_chunk_size(total_size, self.connections);
        }
        self.stage = Stage::Segments;
        HttpAction::RunSegments { chunk_size: self.chunk_size }
    }

    fn choose_way(&mut self, ranges_supported: bool, total_size: Option<u64>) -> (r: HttpAction)
        requires
            old(self).probe is Some,
            old(self).probe->Some_0.ranges_supported == ranges_supported,
            old(self).probe->Some_0.total_size == total_size,
        ensures
            (final(self)@, r@) == choose_way(old(self)@),
    {
        match total_size {
            Some(size) => {
                if ranges_supported && self.connections > 1 {
                    if self.resume {
                        self.stage = Stage::CheckingFile;
                        HttpAction::ReadFileLength
                    } else {
                        self.enter_segments(size)
                    }
                } else {
                    self.choose_offset()
                }
            },
            None => self.choose_offset(),
        }
    }

    fn give_up(&mut self, error: DlError) -> (r: HttpAction)
        ensures
            (final(self)@, r@) == give_up(old(self)@, error@),
    {
        self.stage = Stage::Ended;
        HttpAction::Fail(error)
    }
}

/// Takes a download on after an event that it waits for; what is to be done next.
pub fn download_http(download: &mut HttpDownload, event: HttpEvent) -> (r: HttpAction)
    requires
        old(download).wf(),
        expects(old(download).stage, event@),
        sound_event(old(download)@, event@),
    ensures
        final(download).wf(),
        (final(download)@, r@) == http_next(old(download)@, event@),
{
    proof {
        law_download_keeps_its_invariant(old(download)@, event@);
    }
    match event {
        HttpEvent::Probed(Ok(probe)) => {
            let ranges_supported: bool = probe.ranges_supported;
            let total_size: Option<u64> = probe.total_size;
            download.probe = Some(probe);
            if download.resume {
                download.stage = Stage::AdoptingState;
                HttpAction::ReadState
            } else {
                download.choose_way(ranges_supported, total_size)
            }
        },
        HttpEvent::Probed(Err(error)) => download.give_up(error),
        HttpEvent::StateRead(read) => download.on_state(read),
        HttpEvent::FileLength(len) => download.on_file_length(len),
        HttpEvent::TransferDone(Ok(summary)) => {
            download.summary = Some(summary);
            download.stage = Stage::Publishing;
            HttpAction::Publish
        },
        HttpEvent::TransferDone(Err(error)) => {
            match download.stage {
                Stage::Segments => {
                    if !error::is_error_retryable(&error) {
                        download.give_up(error)
                    } else {
                        match error {
                            DlError::RateLimited { .. } => {
                                download.stage = Stage::Waiting;
                                HttpAction::Wait { millis: FALLBACK_WAIT_MS }
                            },
                            _ => download.choose_offset(),
                        }
                    }
                },
                _ => download.give_up(error),
            }
        },
        HttpEvent::Waited => download.choose_offset(),
        HttpEvent::Truncated => {
            let start_offset: u64 = match download.stage {
                Stage::Truncating { start_offset } => start_offset,
                _ => 0,
            };
            download.stage = Stage::Stream { start_offset };
            HttpAction::RunStream { start_offset }
        },
        HttpEvent::Published(Ok(())) => {
            let target: String = download.target.clone();
            download.stage = Stage::Ended;
            match download.summary.take() {
                Some(mut summary) => {
                    summary.output_path = target;
                    HttpAction::Finish(summary)
                },
                None => HttpAction::Publish,
            }
        },
        HttpEvent::Published(Err(error)) => download.give_up(error),
    }
}

impl HttpDownload {
    /// Goes on with the state that was read.
    fn on_state(&mut self, read: Result<Option<InlineDownloadState>, DlError>) -> (r: HttpAction)
        requires
            old(self).wf(),
            expects(old(self).stage, HttpEvent::StateRead(read)@),
        ensures
            (final(self)@, r@) == http_next(old(self)@, HttpEvent::StateRead(read)@),
    {
        let (absent, saved): (bool, Option<InlineDownloadState>) = match read {
            Ok(None) => (true, None),
            Ok(Some(found)) => (false, Some(found)),
            Err(_) => (false, None),
        };
        let mut ranges_supported: bool = false;
        let mut total_size: Option<u64> = None;
        let mut adopted: Option<u64> = None;
        let mut kept: u64 = 0;
        if let Some(probe) = &self.probe {
            ranges_supported = probe.ranges_supported;
            total_size = probe.total_size;
            adopted = adopt_chunk_size(&saved, &self.url, probe);
            kept = offset_from_state(&saved, &self.url, probe, self.chunk_size);
        }
        match self.stage {
            Stage::AdoptingState => {
                if let Some(chunk_size) = adopted {
                    self.chunk_size = chunk_size;
                    self.adopted = true;
                }
                self.choose_way(ranges_supported, total_size)
            },
            Stage::CheckingState => {
                if absent {
                    self.choose_offset()
                } else {
                    match total_size {
                        Some(size) => self.enter_segments(size),
                        None => self.choose_offset(),
                    }
                }
            },
            _ => {
                if saved.is_none() && ranges_supported {
                    self.stage = Stage::ResumingFile;
                    HttpAction::ReadFileLength
                } else {
                    self.enter_stream(kept)
                }
            },
        }
    }

    /// Goes on with the length of the unfinished file.
    fn on_file_length(&mut self, len: Option<u64>) -> (r: HttpAction)
        requires
            old(self).wf(),
            expects(old(self).stage, HttpEventView::FileLength(len)),
        ensures
            (final(self)@, r@) == http_next(old(self)@, HttpEventView::FileLength(len)),
    {
        let total_size: Option<u64> = match &self.probe {
            Some(probe) => probe.total_size,
            None => None,
        };
        let file_len: u64 = match len {
            Some(n) => n,
            None => 0,
        };
        match self.stage {
            Stage::CheckingFile => {
                if file_len > 0 {
                    self.stage = Stage::CheckingState;
                    HttpAction::ReadState
                } else {
                    match total_size {
                        Some(size) => self.enter_segments(size),
                        None => self.choose_offset(),
                    }
                }
            },
            _ => {
                let start_offset: u64 = match total_size {
                    Some(size) => if file_len < size {
                        file_len
                    } else {
                        0
                    },
                    None => 0,
                };
                self.enter_stream(start_offset)
            },
        }
    }
}

/// Every event that a download waits for leaves it in order: the chunk size is at least one byte,
/// segments are only fetched from a server that sends ranges of a file of known size, the disk is
/// only looked at to take a download up again, and no offset lies past the end of the file.
pub proof fn law_download_keeps_its_invariant(d: HttpView, event: HttpEventView)
    requires
        http_invariant(d),
        expects(d.stage, event),
        sound_event(d, event),
    ensures
        http_invariant(http_next(d, event).0),
{
}

/// How many events a download can still wait for, at most.
pub open spec fn steps_left(stage: Stage) -> nat {
    match stage {
        Stage::Probing => 11,
        Stage::AdoptingState => 10,
        Stage::CheckingFile => 9,
        Stage::CheckingState => 8,
        Stage::Segments => 7,
        Stage::Waiting => 6,
        Stage::ResumingState => 5,
        Stage::ResumingFile => 4,
        Stage::Truncating { start_offset } => 3,
        Stage::Stream { start_offset } => 2,
        Stage::Publishing => 1,
        Stage::Ended => 0,
    }
}

/// Every event takes a download nearer to its end, so it ends after eleven of them at the latest.
pub proof fn law_download_ends(d: HttpView, event: HttpEventView)
    requires
        expects(d.stage, event),
    ensures
        steps_left(http_next(d, event).0.stage) < steps_left(d.stage),
        http_next(d, event).0.stage == Stage::Ended <==> (http_next(d, event).1 is Finish
            || http_next(d, event).1 is Fail),
{
}

/// A download in segments that fails in a way worth another try goes on in one stream, after a
/// wait of three seconds if the server limits the rate; any other failure is the end of it.
pub proof fn law_segments_fall_back_to_one_stream(d: HttpView, error: DlErrorView)
    requires
        d.stage == Stage::Segments,
    ensures
        ({
            let failed = HttpEventView::TransferDone(Err::<SummaryView, DlErrorView>(error));
            let after = http_next(d, failed);
            &&& !error::retryable(error) ==> after.1 == HttpActionView::Fail(error)
            &&& error is RateLimited ==> {
                &&& after.1 == (HttpActionView::Wait { millis: 3000 })
                &&& http_next(after.0, HttpEventView::Waited) == choose_offset(d)
            }
            &&& error::retryable(error) && error !is RateLimited ==> after == choose_offset(d)
        }),
{
}

/// A download that is not to take anything up again neither looks at the disk nor keeps any of
/// it.
pub proof fn law_fresh_download_ignores_the_disk(d: HttpView, event: HttpEventView)
    requires
        http_invariant(d),
        expects(d.stage, event),
        !d.resume,
    ensures
        match http_next(d, event).1 {
            HttpActionView::ReadState => false,
            HttpActionView::ReadFileLength => false,
            HttpActionView::Truncate { len } => false,
            HttpActionView::RunStream { start_offset } => start_offset == 0,
            _ => true,
        },
{
}

/// The file is only ever cut to the offset at which the stream goes on, which lies in the file.
pub proof fn law_truncation_is_where_the_stream_goes_on(d: HttpView, event: HttpEventView)
    requires
        http_invariant(d),
        expects(d.stage, event),
        sound_event(d, event),
    ensures
        match http_next(d, event) {
            (after, HttpActionView::Truncate { len }) => {
                &&& 0 < len <= d.probe->Some_0.total_size->Some_0
                &&& http_next(after, HttpEventView::Truncated).1 == (HttpActionView::RunStream {
                    start_offset: len,
                })
            },
            _ => true,
        },
{
    law_download_keeps_its_invariant(d, event);
}

/// A file gets its final name only after a transfer that succeeded, and a download succeeds only
/// after that, with the outcome of the transfer under the final name, which tells of the whole
/// file.
pub proof fn law_success_is_a_published_transfer(d: HttpView, event: HttpEventView)
    requires
        http_invariant(d),
        expects(d.stage, event),
        sound_event(d, event),
    ensures
        match http_next(d, event) {
            (after, HttpActionView::Publish) => match event {
                HttpEventView::TransferDone(Ok(summary)) => {
                    http_next(after, HttpEventView::Published(Ok(()))).1 == HttpActionView::Finish(
                        SummaryView { output_path: d.target, ..summary },
                    )
                },
                _ => false,
            },
            (after, HttpActionView::Finish(summary)) => {
                &&& d.stage == Stage::Publishing
                &&& event is Published
                &&& event->Published_0 is Ok
                &&& summary.output_path == d.target
                &&& whole_transfer(d.probe->Some_0, summary)
                &&& summary.resumed ==> d.resume
            },
            _ => true,
        },
{
}

/// A download that finds its own state takes over its chunk size, so the chunks that were saved
/// fit, whatever their size.
pub proof fn law_saved_chunk_size_is_kept(d: HttpView, saved: StateView)
    requires
        http_invariant(d),
        d.stage == Stage::AdoptingState,
        d.probe->Some_0.total_size is Some,
        state::same_file(
            saved,
            DownloadKind::Http,
            d.url,
            d.probe->Some_0.total_size->Some_0,
            d.probe->Some_0.etag,
            d.probe->Some_0.last_modified,
        ),
    ensures
        ({
            let after = http_next(d, HttpEventView::StateRead(Ok(Some(saved)))).0;
            &&& after.chunk_size == saved.chunk_size
            &&& enter_segments(after).1 == (HttpActionView::RunSegments {
                chunk_size: saved.chunk_size,
            })
        }),
{
}

/// A file that holds the start of a download in one stream is taken up in one stream, from its
/// end on.
pub proof fn law_partial_stream_goes_on(d: HttpView, len: u64)
    requires
        http_invariant(d),
        d.stage == Stage::CheckingFile,
        0 < len < d.probe->Some_0.total_size->Some_0,
    ensures
        ({
            let (checked, look) = http_next(d, HttpEventView::FileLength(Some(len)));
            let none = HttpEventView::StateRead(Ok::<Option<StateView>, DlErrorView>(None));
            let (single, again) = http_next(checked, none);
            let (measured, measure) = http_next(single, none);
            let (cut, truncate) = http_next(measured, HttpEventView::FileLength(Some(len)));
            &&& look == HttpActionView::ReadState
            &&& again == HttpActionView::ReadState
            &&& measure == HttpActionView::ReadFileLength
            &&& truncate == (HttpActionView::Truncate { len })
            &&& http_next(cut, HttpEventView::Truncated).1 == (HttpActionView::RunStream {
                start_offset: len,
            })
        }),
{
}

/// A download in segments that was cut off is taken up where it was saved: in the same chunks,
/// with those that were complete then.
pub proof fn law_interrupted_segments_are_taken_up(
    d: HttpView,
    board: parallel::TransferBoard,
    unix_secs: u64,
    len: u64,
)
    requires
        http_invariant(d),
        d.stage == Stage::AdoptingState,
        wants_segments(d.probe->Some_0, d.connections),
        board.wf(),
        board.url@ == d.url,
        Some(board.total_size) == d.probe->Some_0.total_size,
        state::validator_matches(headers::opt_text(board.etag), d.probe->Some_0.etag),
        state::validator_matches(
            headers::opt_text(board.last_modified),
            d.probe->Some_0.last_modified,
        ),
        len > 0,
    ensures
        ({
            let saved = parallel::saved_board(board, unix_secs);
            let read = HttpEventView::StateRead(Ok(Some(saved)));
            let (adopted, look) = http_next(d, read);
            let (checked, again) = http_next(adopted, HttpEventView::FileLength(Some(len)));
            let (running, run) = http_next(checked, read);
            &&& look == HttpActionView::ReadFileLength
            &&& again == HttpActionView::ReadState
            &&& run == (HttpActionView::RunSegments { chunk_size: board.chunk_size })
            &&& parallel::resumes(
                Some(saved),
                d.url,
                board.total_size,
                board.chunk_size,
                d.probe->Some_0,
            )
            &&& parallel::starting_chunks(
                Some(saved),
                d.url,
                board.total_size,
                board.chunk_size,
                d.probe->Some_0,
            ) == board.completed@
        }),
{
    parallel::law_saved_board_resumes(board, unix_secs, d.probe->Some_0);
}

/// A stream that takes the place of a download in segments keeps what that has before its first
/// gap.
pub proof fn law_stream_keeps_what_has_no_gap(d: HttpView, saved: StateView)
    requires
        http_invariant(d),
        d.stage == Stage::ResumingState,
        d.probe->Some_0.total_size is Some,
        state::compatible(
            saved,
            DownloadKind::Http,
            d.url,
            d.probe->Some_0.total_size->Some_0,
            d.chunk_size,
            d.probe->Some_0.etag,
            d.probe->Some_0.last_modified,
        ),
        saved.completed_chunks.len() > 0 && saved.completed_chunks[0],
        d.probe->Some_0.total_size->Some_0 > 0,
    ensures
        ({
            let kept = chunks::run_size(
                chunks::leading_run(saved.completed_chunks) as int,
                d.probe->Some_0.total_size->Some_0 as int,
                d.chunk_size as int,
            );
            &&& 0 < kept <= d.probe->Some_0.total_size->Some_0
            &&& http_next(d, HttpEventView::StateRead(Ok(Some(saved)))).1 == (
            HttpActionView::Truncate { len: kept as u64 })
        }),
{
    let run = chunks::leading_run(saved.completed_chunks) as int;
    assert(run >= 1);
    assert(run * d.chunk_size >= 1) by (nonlinear_arith)
        requires
            run >= 1,
            d.chunk_size >= 1,
    ;
}

/// One stream never goes on from what belongs to another file: a state that is not of this file,
/// as the server has it now, starts it from nothing.
pub proof fn law_other_files_state_is_not_streamed_on(d: HttpView, saved: StateView)
    requires
        http_invariant(d),
        d.stage == Stage::ResumingState,
        d.probe->Some_0.total_size is Some ==> !state::compatible(
            saved,
            DownloadKind::Http,
            d.url,
            d.probe->Some_0.total_size->Some_0,
            d.chunk_size,
            d.probe->Some_0.etag,
            d.probe->Some_0.last_modified,
        ),
    ensures
        http_next(d, HttpEventView::StateRead(Ok(Some(saved)))).1 == (HttpActionView::RunStream {
            start_offset: 0,
        }),
{
}

/// Where a list of events takes a download.
pub open spec fn course(d: HttpView, events: Seq<HttpEventView>) -> HttpView
    decreases events.len(),
{
    if events.len() == 0 {
        d
    } else {
        http_next(course(d, events.drop_last()), events.last()).0
    }
}

/// Every event of the list is one that the download waits for.
pub open spec fn course_events(d: HttpView, events: Seq<HttpEventView>) -> bool
    decreases events.len(),
{
    events.len() > 0 ==> {
        let before = course(d, events.drop_last());
        &&& course_events(d, events.drop_last())
        &&& expects(before.stage, events.last())
        &&& sound_event(before, events.last())
    }
}

/// The event tells of what an earlier download left on the disk.
pub open spec fn tells_of_the_disk(event: HttpEventView) -> bool {
    event is StateRead || event is FileLength || event is Truncated
}

/// From its start to its end, a download that is not to take anything up again hears nothing of
/// what an earlier one left: no event tells of it, its segments are planned alike whatever state
/// is there, from nothing and not as taken up, and its one stream asks for the whole file.
pub proof fn law_fresh_download_reuses_nothing(
    d: HttpView,
    events: Seq<HttpEventView>,
    one: Result<Option<StateView>, DlErrorView>,
    other: Result<Option<StateView>, DlErrorView>,
    chunk_size: u64,
)
    requires
        http_invariant(d),
        d.stage == Stage::Probing,
        !d.resume,
        course_events(d, events),
        chunk_size > 0,
    ensures
        forall|i: int| 0 <= i < events.len() ==> !tells_of_the_disk(#[trigger] events[i]),
        ({
            let after = course(d, events);
            let probe = after.probe->Some_0;
            let total_size = probe.total_size->Some_0;
            let plan = parallel::plan_state(after.resume, one);
            &&& !after.resume
            &&& plan == parallel::plan_state(after.resume, other)
            &&& plan is Ok
            &&& !parallel::resumes(plan->Ok_0, after.url, total_size, chunk_size, probe)
            &&& forall|i: int|
                0 <= i < parallel::starting_chunks(
                    plan->Ok_0,
                    after.url,
                    total_size,
                    chunk_size,
                    probe,
                ).len() ==> !#[trigger] parallel::starting_chunks(
                    plan->Ok_0,
                    after.url,
                    total_size,
                    chunk_size,
                    probe,
                )[i]
            &&& match after.stage {
                Stage::Stream { start_offset } => start_offset == 0,
                _ => true,
            }
        }),
{
    lemma_fresh_course(d, events);
}

/// A download that is not to take anything up again stays one, and hears nothing of the disk.
pub proof fn lemma_fresh_course(d: HttpView, events: Seq<HttpEventView>)
    requires
        http_invariant(d),
        d.stage == Stage::Probing,
        !d.resume,
        course_events(d, events),
    ensures
        http_invariant(course(d, events)),
        !course(d, events).resume,
        forall|i: int| 0 <= i < events.len() ==> !tells_of_the_disk(#[trigger] events[i]),
    decreases events.len(),
{
    if events.len() > 0 {
        let front = events.drop_last();
        lemma_fresh_course(d, front);
        law_download_keeps_its_invariant(course(d, front), events.last());
        assert forall|i: int| 0 <= i < events.len() implies !tells_of_the_disk(
            #[trigger] events[i],
        ) by {
            if i < front.len() {
                assert(!tells_of_the_disk(front[i]));
            }
        }
    }
}

/// A server that sends ranges of a file of known size gets the file fetched in segments, by more
/// than one connection if that is asked for, whatever the size: at once where nothing is to be
/// taken up, and else as soon as it is known that there is no file yet, whatever state was read.
pub proof fn law_ranges_mean_segments(
    d: HttpView,
    probe: ProbeView,
    read: Result<Option<StateView>, DlErrorView>,
    empty: Option<u64>,
)
    requires
        d.stage == Stage::Probing,
        probe.ranges_supported,
        probe.total_size is Some,
        d.connections >= 2,
        empty is None || empty == Some(0u64),
    ensures
        ({
            let (probed, first) = http_next(d, HttpEventView::Probed(Ok(probe)));
            let (adopted, second) = http_next(probed, HttpEventView::StateRead(read));
            let (running, third) = http_next(adopted, HttpEventView::FileLength(empty));
            &&& !d.resume ==> first is RunSegments
            &&& d.resume ==> {
                &&& first is ReadState
                &&& second is ReadFileLength
                &&& third is RunSegments
            }
        }),
{
}

/// A file that is there already goes on in segments if anything stands where its state belongs,
/// and in one stream if nothing does.
pub proof fn law_leftover_file_needs_a_state_for_segments(
    d: HttpView,
    len: u64,
    read: Result<Option<StateView>, DlErrorView>,
)
    requires
        d.stage == Stage::CheckingFile,
        d.resume,
        len > 0,
    ensures
        ({
            let (found, first) = http_next(d, HttpEventView::FileLength(Some(len)));
            let (after, second) = http_next(found, HttpEventView::StateRead(read));
            let (measured, third) = http_next(after, HttpEventView::StateRead(read));
            &&& first is ReadState
            &&& read is Err || read->Ok_0 is Some ==> second is RunSegments
            &&& read is Ok && read->Ok_0 is None ==> {
                &&& second is ReadState
                &&& third is ReadFileLength <==> d.probe->Some_0.ranges_supported
            }
        }),
{
}

/// A server that sends no ranges, a file of unknown size, or a single connection get the file
/// fetched in one stream.
pub proof fn law_one_stream_where_segments_cannot_be(d: HttpView, probe: ProbeView)
    requires
        d.stage == Stage::Probing,
        !probe.ranges_supported || probe.total_size is None || d.connections <= 1,
    ensures
        ({
            let (probed, first) = http_next(d, HttpEventView::Probed(Ok(probe)));
            let none = HttpEventView::StateRead(Ok::<Option<StateView>, DlErrorView>(None));
            let (adopted, second) = http_next(probed, none);
            let (streaming, third) = http_next(adopted, none);
            let (measured, fourth) = http_next(streaming, HttpEventView::FileLength(None));
            &&& !d.resume ==> first == (HttpActionView::RunStream { start_offset: 0 })
            &&& d.resume ==> {
                &&& first is ReadState
                &&& second is ReadState
                &&& !probe.ranges_supported ==> third == (HttpActionView::RunStream {
                    start_offset: 0,
                })
                &&& probe.ranges_supported ==> third is ReadFileLength && fourth == (
                HttpActionView::RunStream { start_offset: 0 })
            }
        }),
{
}

/// Segments have the chunk size that was asked for or that was taken over; the default alone gives
/// way, to the one that fits the file.
pub proof fn law_chunk_size_is_the_wanted_one(d: HttpView, probe: ProbeView)
    requires
        d.stage == Stage::Probing,
        !d.resume,
        !d.adopted,
        probe.ranges_supported,
        probe.total_size is Some,
        d.connections >= 2,
    ensures
        ({
            let action = http_next(d, HttpEventView::Probed(Ok(probe))).1;
            &&& action is RunSegments
            &&& d.chunk_size != 2_097_152 ==> action->chunk_size == d.chunk_size
            &&& d.chunk_size == 2_097_152 ==> action->chunk_size == chunks::dynamic_chunk_size(
                probe.total_size->Some_0 as int,
                d.connections as int,
            )
        }),
{
    chunks::law_dynamic_chunk_size_is_half_a_share(probe.total_size->Some_0, d.connections);
}

/// A state whose source, size and validators are those of the file, as the server has it now, is
/// fetched on in its own chunks, whatever size they have.
pub proof fn law_equal_state_is_fetched_on(d: HttpView, saved: StateView, len: u64)
    requires
        http_invariant(d),
        d.stage == Stage::AdoptingState,
        d.probe->Some_0.ranges_supported,
        d.connections >= 2,
        saved.version == 1,
        saved.kind == DownloadKind::Http,
        saved.source == d.url,
        Some(saved.total_size) == d.probe->Some_0.total_size,
        saved.etag == d.probe->Some_0.etag,
        saved.last_modified == d.probe->Some_0.last_modified,
        len > 0,
    ensures
        ({
            let read = HttpEventView::StateRead(Ok(Some(saved)));
            let (adopted, first) = http_next(d, read);
            let (checked, second) = http_next(adopted, HttpEventView::FileLength(Some(len)));
            let (running, third) = http_next(checked, read);
            &&& first is ReadFileLength
            &&& second is ReadState
            &&& third == (HttpActionView::RunSegments { chunk_size: saved.chunk_size })
        }),
{
}

/// One stream goes on from the end of a file that has no state, as far as the server sends ranges
/// and the file is not longer than it is going to be; whatever the lengths are.
pub proof fn law_stream_goes_on_from_the_end_of_the_file(d: HttpView, len: Option<u64>)
    requires
        http_invariant(d),
        d.stage == Stage::ResumingFile,
    ensures
        ({
            let (after, action) = http_next(d, HttpEventView::FileLength(len));
            let total_size = d.probe->Some_0.total_size;
            &&& len is Some && total_size is Some && 0 < len->Some_0 < total_size->Some_0 ==> {
                &&& action == (HttpActionView::Truncate { len: len->Some_0 })
                &&& http_next(after, HttpEventView::Truncated).1 == (HttpActionView::RunStream {
                    start_offset: len->Some_0,
                })
            }
            &&& !(len is Some && total_size is Some && 0 < len->Some_0 < total_size->Some_0)
                ==> action == (HttpActionView::RunStream { start_offset: 0 })
        }),
{
}

/// One stream keeps every byte before the first gap of its own state, and no other.
pub proof fn law_stream_keeps_the_bytes_before_the_gap(d: HttpView, saved: StateView, at: u64)
    requires
        http_invariant(d),
        d.stage == Stage::ResumingState,
        saved.version == 1,
        saved.kind == DownloadKind::Http,
        saved.source == d.url,
        Some(saved.total_size) == d.probe->Some_0.total_size,
        saved.chunk_size == d.chunk_size,
        saved.etag == d.probe->Some_0.etag,
        saved.last_modified == d.probe->Some_0.last_modified,
        at < saved.total_size,
    ensures
        ({
            let action = http_next(d, HttpEventView::StateRead(Ok(Some(saved)))).1;
            let kept = if action is Truncate {
                action->len
            } else {
                0
            };
            &&& action is Truncate || action == (HttpActionView::RunStream { start_offset: 0 })
            &&& at < kept <==> chunks::all_complete(
                saved.completed_chunks,
                at as int / saved.chunk_size as int,
            )
        }),
{
    chunks::law_kept_bytes_reach_the_first_gap(
        saved.completed_chunks,
        saved.total_size,
        saved.chunk_size,
        at,
    );
    let kept = chunks::run_size(
        chunks::leading_run(saved.completed_chunks) as int,
        saved.total_size as int,
        saved.chunk_size as int,
    );
    assert(saved_offset(Some(saved), d.url, d.probe->Some_0, d.chunk_size) == kept);
}

/// A probe, a stream or a final name that fails is what the download fails with.
pub proof fn law_failures_are_handed_on(d: HttpView, error: DlErrorView)
    ensures
        d.stage == Stage::Probing ==> http_next(d, HttpEventView::Probed(Err(error))).1
            == HttpActionView::Fail(error),
        d.stage is Stream ==> http_next(d, HttpEventView::TransferDone(Err(error))).1
            == HttpActionView::Fail(error),
        d.stage == Stage::Publishing ==> http_next(d, HttpEventView::Published(Err(error))).1
            == HttpActionView::Fail(error),
{
}

/// After segments that failed in passing, the stream that takes their place begins anew where
/// nothing is to be taken up, and looks for a state where something is.
pub proof fn law_stream_after_segments(d: HttpView, error: DlErrorView)
    requires
        d.stage == Stage::Segments,
        error is RateLimited || error is ServerError || error is Http,
    ensures
        ({
            let (after, action) = http_next(
                d,
                HttpEventView::TransferDone(Err::<SummaryView, DlErrorView>(error)),
            );
            let next = if error is RateLimited {
                http_next(after, HttpEventView::Waited).1
            } else {
                action
            };
            &&& error is RateLimited ==> action == (HttpActionView::Wait { millis: 3000 })
            &&& d.resume ==> next is ReadState
            &&& !d.resume ==> next == (HttpActionView::RunStream { start_offset: 0 })
        }),
{
    error::law_passing_failures_are_retryable(error);
}

/// The chunk size of a state is taken over only if the state is of this file; what is of another
/// source, size or version of the file leaves the download as it was.
pub proof fn law_other_states_change_no_chunk_size(d: HttpView, saved: StateView)
    requires
        http_invariant(d),
        d.stage == Stage::AdoptingState,
        saved.source != d.url || Some(saved.total_size) != d.probe->Some_0.total_size || (
        saved.etag is Some && d.probe->Some_0.etag is Some && saved.etag != d.probe->Some_0.etag)
            || (saved.last_modified is Some && d.probe->Some_0.last_modified is Some
            && saved.last_modified != d.probe->Some_0.last_modified),
    ensures
        http_next(d, HttpEventView::StateRead(Ok(Some(saved)))) == http_next(
            d,
            HttpEventView::StateRead(Ok::<Option<StateView>, DlErrorView>(None)),
        ),
        http_next(d, HttpEventView::StateRead(Ok(Some(saved)))).0.chunk_size == d.chunk_size
            || !d.resume,
{
}

/// What segments have saved before they failed is kept by the stream that takes their place: the
/// bytes before the first gap, in chunks of the size that the segments were run with.
pub proof fn law_stream_keeps_what_segments_saved(
    d: HttpView,
    error: DlErrorView,
    saved: StateView,
    at: u64,
)
    requires
        http_invariant(d),
        d.stage == Stage::CheckingFile,
        error is ServerError || error is Http,
        saved.version == 1,
        saved.kind == DownloadKind::Http,
        saved.source == d.url,
        Some(saved.total_size) == d.probe->Some_0.total_size,
        saved.etag == d.probe->Some_0.etag,
        saved.last_modified == d.probe->Some_0.last_modified,
        at < saved.total_size,
    ensures
        ({
            let (running, first) = http_next(d, HttpEventView::FileLength(None));
            let (fallen, second) = http_next(
                running,
                HttpEventView::TransferDone(Err::<SummaryView, DlErrorView>(error)),
            );
            let third = http_next(fallen, HttpEventView::StateRead(Ok(Some(saved)))).1;
            let kept = if third is Truncate {
                third->len
            } else {
                0
            };
            &&& first is RunSegments
            &&& second is ReadState
            &&& first->chunk_size == saved.chunk_size ==> (at < kept <==> chunks::all_complete(
                saved.completed_chunks,
                at as int / saved.chunk_size as int,
            ))
        }),
{
    error::law_passing_failures_are_retryable(error);
    law_download_keeps_its_invariant(d, HttpEventView::FileLength(None));
    let (running, first) = http_next(d, HttpEventView::FileLength(None));
    let failed = HttpEventView::TransferDone(Err::<SummaryView, DlErrorView>(error));
    law_download_keeps_its_invariant(running, failed);
    let fallen = http_next(running, failed).0;
    if first->chunk_size == saved.chunk_size {
        law_stream_keeps_the_bytes_before_the_gap(fallen, saved, at);
    }
}

} // verus!
