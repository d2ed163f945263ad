//! A download in one stream, from the start of the file or from where it was left.
use crate::error::{DlError, DlErrorView};
use crate::headers;
use crate::headers::ResponseHead;
use crate::response;
use crate::retry;
use crate::stream;
use crate::stream::ReportPacer;
use crate::text;
use crate::types;
use crate::types::{
    DownloadKind, DownloadPhase, DownloadProgress, DownloadSummary, ProgressView, SummaryView,
};
use vstd::prelude::*;
use vstd::string::*;

verus! {

/// Whether a stream asks for the rest of the file only.
pub open spec fn asks_for_rest(start_offset: u64, ranges_supported: bool) -> bool {
    start_offset > 0 && ranges_supported
}

/// Whether the response with this status is one to read: the status that was asked for, a plain
/// 200, or any success when the whole file was wanted.
pub open spec fn accepts(status: u16, start_offset: u64, ranges_supported: bool) -> bool {
    ||| asks_for_rest(start_offset, ranges_supported) && status == 206
    ||| start_offset == 0 && headers::is_success(status)
    ||| status == 200
}

/// Where the body of an accepted response starts in the file.
pub open spec fn body_offset(status: u16, start_offset: u64) -> u64 {
    if status == 206 {
        start_offset
    } else {
        0
    }
}

/// The `Range` header of the request for a stream, if it has one.
pub fn single_stream_range(start_offset: u64, ranges_supported: bool) -> (r: Option<String>)
    ensures
        headers::opt_text(r) == if asks_for_rest(start_offset, ranges_supported) {
            Some("bytes="@ + text::decimal(start_offset as nat) + "-"@)
        } else {
            None
        },
{
    if start_offset > 0 && ranges_supported {
        let mut out: String = "bytes=".to_string();
        text::append_decimal(&mut out, start_offset);
        out.append("-");
        Some(out)
    } else {
        None
    }
}

/// Whether the response with this status is one to read.
pub fn accepts_status(status: u16, start_offset: u64, ranges_supported: bool) -> (r: bool)
    ensures
        r == accepts(status, start_offset, ranges_supported),
{
    (start_offset > 0 && ranges_supported && status == 206) || (start_offset == 0 && 200 <= status
        && status <= 299) || status == 200
}

/// What comes after a request for a stream.
#[derive(Debug, PartialEq, Eq)]
pub enum SingleStep {
    /// Read the body into the file, from this offset on.
    Read { offset: u64 },
    /// Try again after this many milliseconds.
    Retry { wait_ms: u128 },
    Failed(DlError),
}

pub enum SingleStepView {
    Read { offset: u64 },
    Retry { wait_ms: int },
    Failed(DlErrorView),
}

impl View for SingleStep {
    type V = SingleStepView;

    open spec fn view(&self) -> SingleStepView {
        match *self {
            SingleStep::Read { offset } => SingleStepView::Read { offset },
            SingleStep::Retry { wait_ms } => SingleStepView::Retry { wait_ms: wait_ms as int },
            SingleStep::Failed(error) => SingleStepView::Failed(error@),
        }
    }
}

/// What comes after the failed attempt `attempt`.
pub open spec fn after_failure(error: DlErrorView, attempt: int, jitter_ms: int) -> SingleStepView {
    match retry::single_stream_retry(error, attempt, jitter_ms) {
        Some(wait_ms) => SingleStepView::Retry { wait_ms },
        None => SingleStepView::Failed(error),
    }
}

/// What comes after attempt `attempt` at a stream.
pub open spec fn single_next(
    reply: Result<ResponseHead, DlErrorView>,
    body: Option<Seq<char>>,
    start_offset: u64,
    ranges_supported: bool,
    attempt: int,
    jitter_ms: int,
) -> SingleStepView {
    match reply {
        Ok(head) => if accepts(head.status, start_offset, ranges_supported) {
            SingleStepView::Read { offset: body_offset(head.status, start_offset) }
        } else {
            after_failure(response::rejection(head, body, "GET"@), attempt, jitter_ms)
        },
        Err(error) => after_failure(error, attempt, jitter_ms),
    }
}

pub open spec fn reply_ref_view(reply: Result<&ResponseHead, DlError>) -> Result<
    ResponseHead,
    DlErrorView,
> {
    match reply {
        Ok(head) => Ok(*head),
        Err(error) => Err(error@),
    }
}

/// What comes after attempt `attempt` at a stream; an `Err` is a request that got no response,
/// and `body` the page that came with an unwanted status, if it could be read as text.
pub fn download_single_stream(
    reply: Result<&ResponseHead, DlError>,
    body: Option<&str>,
    start_offset: u64,
    ranges_supported: bool,
    attempt: usize,
    jitter_ms: u64,
) -> (r: SingleStep)
    requires
        1 <= attempt <= retry::MAX_SINGLE_STREAM_ATTEMPTS,
        reply is Ok ==> reply->Ok_0.wf(),
    ensures
        r@ == single_next(
            reply_ref_view(reply),
            response::opt_str(body),
            start_offset,
            ranges_supported,
            attempt as int,
            jitter_ms as int,
        ),
{
    let error = match reply {
        Ok(head) => {
            if accepts_status(head.status, start_offset, ranges_supported) {
                let offset: u64 = if head.status == 206 {
                    start_offset
                } else {
                    0
                };
                return SingleStep::Read { offset };
            }
            response::rejected(head, body, "GET")
        },
        Err(error) => error,
    };
    match retry::retry_single_stream(&error, attempt, jitter_ms) {
        Some(wait_ms) => SingleStep::Retry { wait_ms },
        None => SingleStep::Failed(error),
    }
}

/// A stream that is being read into the file.
#[derive(Debug)]
pub struct SingleStream {
    /// Where the body starts in the file.
    pub offset: u64,
    /// How many bytes of the file are there.
    pub downloaded: u64,
    pub total_size: Option<u64>,
    pub pacer: ReportPacer,
}

impl SingleStream {
    /// Starts to read a body at `offset`. The size of the file is the one that is known, or what
    /// the body adds to the offset.
    pub fn start(
        offset: u64,
        known_size: Option<u64>,
        content_length: Option<u64>,
        now: u64,
    ) -> (r: SingleStream)
        requires
            known_size is None && content_length is Some ==> content_length->Some_0 + offset
                <= u64::MAX,
        ensures
            r.offset == offset,
            r.downloaded == offset,
            r.total_size == (match (known_size, content_length) {
                (Some(size), _) => Some(size),
                (None, Some(len)) => Some((len + offset) as u64),
                (None, None) => None,
            }),
            r.pacer == (ReportPacer { pieces: 0, last_report: now }),
    {
        let total_size: Option<u64> = match known_size {
            Some(size) => Some(size),
            None => match content_length {
                Some(len) => Some(len + offset),
                None => None,
            },
        };
        SingleStream { offset, downloaded: offset, total_size, pacer: ReportPacer::new(now) }
    }

    /// Counts `len` bytes that were written at `now`; whether a report is due.
    pub fn receive(&mut self, len: u64, now: u64) -> (r: bool)
        requires
            old(self).downloaded + len <= u64::MAX,
        ensures
            final(self).offset == old(self).offset,
            final(self).total_size == old(self).total_size,
            final(self).downloaded == old(self).downloaded + len,
            r == stream::lets_report(old(self).pacer, now),
            final(self).pacer == stream::paced(old(self).pacer, now),
    {
        self.downloaded = self.downloaded + len;
        self.pacer.count_piece(now)
    }

    /// The report on the stream in a phase: one worker while it is read, none at its end.
    pub fn report(
        &self,
        listening: bool,
        phase: DownloadPhase,
        url: &str,
        output_path: &str,
    ) -> (r: Option<DownloadProgress>)
        ensures
            r is Some <==> listening,
            r is Some ==> r->Some_0@ == (ProgressView {
                kind: DownloadKind::Http,
                phase,
                source: url@,
                output_path: output_path@,
                downloaded_bytes: self.downloaded,
                total_bytes: self.total_size,
                active_workers: if phase == DownloadPhase::Downloading {
                    1
                } else {
                    0
                },
                completed_chunks: None,
                total_chunks: None,
            }),
    {
        types::emit_progress(
            listening,
            phase,
            url,
            output_path,
            self.downloaded,
            self.total_size,
            if phase == DownloadPhase::Downloading {
                1
            } else {
                0
            },
            None,
            None,
        )
    }

    /// The outcome of the download once the stream has ended; it is an error if the size of the
    /// file is known and the stream ended anywhere else.
    pub fn finish(&self, url: &str, output_path: &str) -> (r: Result<DownloadSummary, DlError>)
        ensures
            match stream_outcome(
                self.offset,
                self.downloaded,
                self.total_size,
                url@,
                output_path@,
            ) {
                Ok(summary) => r is Ok && r->Ok_0@ == summary,
                Err(error) => r is Err && r->Err_0@ == error,
            },
    {
        let total_bytes: u64 = match self.total_size {
            Some(size) => size,
            None => self.downloaded,
        };
        if total_bytes != self.downloaded {
            let mut message: String = "single stream wrote ".to_string();
            text::append_decimal(&mut message, self.downloaded);
            message.append(" bytes, expected ");
            text::append_decimal(&mut message, total_bytes);
            return Err(DlError::InvalidResponse(message));
        }
        Ok(
            DownloadSummary {
                kind: DownloadKind::Http,
                source: url.to_string(),
                output_path: output_path.to_string(),
                total_bytes,
                downloaded_bytes: self.downloaded,
                resumed: self.offset > 0,
            },
        )
    }
}

/// What a stream that started at `offset` comes to when it ends with `downloaded` bytes of the
/// file there: a file of known size has to be there to the byte.
pub open spec fn stream_outcome(
    offset: u64,
    downloaded: u64,
    total_size: Option<u64>,
    url: Seq<char>,
    output_path: Seq<char>,
) -> Result<SummaryView, DlErrorView> {
    match total_size {
        Some(size) if size != downloaded => Err(
            DlErrorView::InvalidResponse(
                "single stream wrote "@ + text::decimal(downloaded as nat) + " bytes, expected "@
                    + text::decimal(size as nat),
            ),
        ),
        _ => Ok(
            SummaryView {
                kind: DownloadKind::Http,
                source: url,
                output_path,
                total_bytes: downloaded,
                downloaded_bytes: downloaded,
                resumed: offset > 0,
            },
        ),
    }
}

/// A stream succeeds only with the whole file: all of its bytes, if their number is known.
pub proof fn law_success_is_the_whole_file(
    offset: u64,
    downloaded: u64,
    total_size: Option<u64>,
    url: Seq<char>,
    output_path: Seq<char>,
)
    ensures
        match stream_outcome(offset, downloaded, total_size, url, output_path) {
            Ok(summary) => {
                &&& summary.downloaded_bytes == summary.total_bytes
                &&& total_size is Some ==> summary.total_bytes == total_size->Some_0
            },
            Err(error) => error is InvalidResponse && total_size is Some && total_size->Some_0
                != downloaded,
        },
{
}

/// A server that sends the whole file, though the rest was asked for, gets it written from the
/// start.
pub proof fn law_whole_file_is_written_from_the_start(
    head: ResponseHead,
    body: Option<Seq<char>>,
    start_offset: u64,
    ranges_supported: bool,
    attempt: usize,
    jitter_ms: u64,
)
    requires
        head.status == 200,
    ensures
        single_next(
            Ok(head),
            body,
            start_offset,
            ranges_supported,
            attempt as int,
            jitter_ms as int,
        ) == (SingleStepView::Read { offset: 0 }),
{
}

/// A body is written at an offset other than the start only if that offset was asked for and the
/// server sent a part of the file.
pub proof fn law_offset_needs_partial_content(
    reply: Result<ResponseHead, DlErrorView>,
    body: Option<Seq<char>>,
    start_offset: u64,
    ranges_supported: bool,
    attempt: usize,
    jitter_ms: u64,
)
    ensures
        match single_next(
            reply,
            body,
            start_offset,
            ranges_supported,
            attempt as int,
            jitter_ms as int,
        ) {
            SingleStepView::Read { offset } => offset > 0 ==> {
                &&& offset == start_offset
                &&& ranges_supported
                &&& reply is Ok
                &&& reply->Ok_0.status == 206
            },
            _ => true,
        },
{
}

/// A stream from the start of the file is written from its start, and its outcome is not one that
/// was taken up.
pub proof fn law_stream_from_the_start_reuses_nothing(
    reply: Result<ResponseHead, DlErrorView>,
    body: Option<Seq<char>>,
    ranges_supported: bool,
    attempt: usize,
    jitter_ms: u64,
    downloaded: u64,
    total_size: Option<u64>,
    url: Seq<char>,
    output_path: Seq<char>,
)
    ensures
        match single_next(
            reply,
            body,
            0,
            ranges_supported,
            attempt as int,
            jitter_ms as int,
        ) {
            SingleStepView::Read { offset } => {
                &&& offset == 0
                &&& match stream_outcome(offset, downloaded, total_size, url, output_path) {
                    Ok(summary) => !summary.resumed,
                    Err(_) => true,
                }
            },
            _ => true,
        },
{
}

/// The rest of a file that was asked for and is sent as a part is written behind the bytes that
/// are there, wherever that is; so what is kept and what comes make the served file.
pub proof fn law_rest_is_written_behind_what_is_kept(
    head: ResponseHead,
    body: Option<Seq<char>>,
    start_offset: u64,
    attempt: usize,
    jitter_ms: u64,
    file: Seq<u8>,
    served: Seq<u8>,
)
    requires
        head.status == 206,
        0 < start_offset <= served.len(),
        start_offset <= file.len(),
        file.take(start_offset as int) == served.take(start_offset as int),
    ensures
        ({
            let step = single_next(
                Ok(head),
                body,
                start_offset,
                true,
                attempt as int,
                jitter_ms as int,
            );
            &&& step is Read
            &&& step->offset == start_offset
            &&& file.take(step->offset as int) + served.skip(start_offset as int) == served
        }),
        asks_for_rest(start_offset, true),
{
    let kept = start_offset as int;
    assert(file.take(kept) + served.skip(kept) =~= served);
}

/// Which responses are read: any success from the start of the file, and behind it a plain 200, or
/// a part if one was asked for. Nothing is asked for behind the start of the file from a server
/// that does not send ranges.
pub proof fn law_only_wanted_responses_are_read(
    head: ResponseHead,
    body: Option<Seq<char>>,
    start_offset: u64,
    ranges_supported: bool,
    attempt: usize,
    jitter_ms: u64,
)
    ensures
        ({
            let step = single_next(
                Ok(head),
                body,
                start_offset,
                ranges_supported,
                attempt as int,
                jitter_ms as int,
            );
            &&& start_offset == 0 ==> (step is Read <==> head.status as int / 100 == 2)
            &&& start_offset > 0 && ranges_supported ==> (step is Read <==> head.status == 200
                || head.status == 206)
            &&& start_offset > 0 && !ranges_supported ==> (step is Read <==> head.status == 200)
            &&& step is Read && head.status != 206 ==> step->offset == 0
            &&& start_offset == 0 && step is Read ==> step->offset == 0
        }),
        asks_for_rest(start_offset, ranges_supported) ==> start_offset > 0 && ranges_supported,
{
}

/// A request that got no response, or one of 429, 408 or 500 to 599, is made again, four times at
/// most, and then fails with its error.
pub proof fn law_passing_failures_of_a_stream_are_tried_again(
    head: ResponseHead,
    body: Option<Seq<char>>,
    cause: Seq<char>,
    start_offset: u64,
    ranges_supported: bool,
    attempt: usize,
    jitter_ms: u64,
)
    requires
        attempt >= 1,
        head.status == 429 || head.status == 408 || head.status as int / 100 == 5,
    ensures
        ({
            let lost = single_next(
                Err(DlErrorView::Http(cause)),
                body,
                start_offset,
                ranges_supported,
                attempt as int,
                jitter_ms as int,
            );
            let refused = single_next(
                Ok(head),
                body,
                start_offset,
                ranges_supported,
                attempt as int,
                jitter_ms as int,
            );
            &&& lost is Retry <==> attempt <= 4
            &&& attempt >= 5 ==> lost == SingleStepView::Failed(DlErrorView::Http(cause))
            &&& refused is Retry <==> attempt <= 4
            &&& attempt >= 5 ==> refused == SingleStepView::Failed(
                response::rejection(head, body, "GET"@),
            )
            &&& lost is Retry ==> Some(lost->wait_ms) == retry::single_stream_retry(
                DlErrorView::Http(cause),
                attempt as int,
                jitter_ms as int,
            )
            &&& refused is Retry ==> Some(refused->wait_ms) == retry::single_stream_retry(
                response::rejection(head, body, "GET"@),
                attempt as int,
                jitter_ms as int,
            )
        }),
{
    retry::law_passing_failures_are_tried_again(DlErrorView::Http(cause), attempt, jitter_ms);
    response::law_unwanted_statuses_are_told_apart(head, body, "GET"@);
    retry::law_passing_failures_are_tried_again(
        response::rejection(head, body, "GET"@),
        attempt,
        jitter_ms,
    );
}

/// The outcome of a stream tells how many bytes are there, and that an earlier download was gone
/// on with exactly if the stream did not begin at the start.
pub proof fn law_outcome_tells_what_is_there(
    offset: u64,
    downloaded: u64,
    total_size: Option<u64>,
    url: Seq<char>,
    output_path: Seq<char>,
)
    requires
        total_size is None || total_size == Some(downloaded),
    ensures
        ({
            let outcome = stream_outcome(offset, downloaded, total_size, url, output_path);
            &&& outcome is Ok
            &&& outcome->Ok_0.downloaded_bytes == downloaded
            &&& outcome->Ok_0.total_bytes == downloaded
            &&& outcome->Ok_0.resumed <==> offset != 0
            &&& outcome->Ok_0.source == url
            &&& outcome->Ok_0.output_path == output_path
        }),
{
}

/// The stream of a file of which `start_offset` bytes are there asks for what follows them, and
/// is read at their end; one of which none are asks for all, and is read at the start.
pub proof fn law_stream_asks_for_what_it_reads(
    start_offset: u64,
    range: Option<String>,
    head: ResponseHead,
    body: Option<&str>,
    attempt: usize,
    jitter_ms: u64,
    step: SingleStep,
)
    requires
        call_ensures(single_stream_range, (start_offset, true), range),
        call_ensures(
            download_single_stream,
            (Ok(&head), body, start_offset, true, attempt, jitter_ms),
            step,
        ),
        head.status == 206,
    ensures
        step == (SingleStep::Read { offset: start_offset }),
        range is Some <==> start_offset > 0,
        range is Some ==> {
            let asked = range->Some_0@;
            &&& asked.len() > 7
            &&& asked.take(6) == "bytes="@
            &&& asked.last() == '-'
            &&& asked.subrange(6, asked.len() - 1) == text::decimal(start_offset as nat)
        },
{
    reveal_strlit("bytes=");
    reveal_strlit("-");
    text::lemma_decimal_digits(start_offset as nat);
    if range is Some {
        let asked = range->Some_0@;
        assert(asked.take(6) =~= "bytes="@);
        assert(asked.subrange(6, asked.len() - 1) =~= text::decimal(start_offset as nat));
    }
}

/// A server without ranges is never asked for one.
pub proof fn law_no_range_without_ranges(start_offset: u64, range: Option<String>)
    requires
        call_ensures(single_stream_range, (start_offset, false), range),
    ensures
        range is None,
{
}

/// A stream knows the size of its file from the probe, else from what its response still brings
/// on top of what is there; and what is there it has already.
pub proof fn law_stream_starts_with_what_is_there(
    offset: u64,
    known_size: Option<u64>,
    content_length: Option<u64>,
    now: u64,
    stream: SingleStream,
)
    requires
        call_ensures(SingleStream::start, (offset, known_size, content_length, now), stream),
        known_size is None && content_length is Some ==> content_length->Some_0 + offset
            <= u64::MAX,
    ensures
        stream.offset == offset,
        stream.downloaded == offset,
        known_size is Some ==> stream.total_size == known_size,
        known_size is None && content_length is Some ==> stream.total_size is Some
            && stream.total_size->Some_0 - offset == content_length->Some_0,
        known_size is None && content_length is None ==> stream.total_size is None,
        stream.pacer.pieces == 0,
        stream.pacer.last_report == now,
{
}

/// A stream that brought more or fewer bytes than its file has fails, and says how many of how
/// many there are.
pub proof fn law_wrong_size_is_told(
    offset: u64,
    downloaded: u64,
    size: u64,
    url: Seq<char>,
    output_path: Seq<char>,
)
    requires
        size != downloaded,
    ensures
        ({
            let outcome = stream_outcome(offset, downloaded, Some(size), url, output_path);
            &&& outcome is Err
            &&& outcome->Err_0 is InvalidResponse
            &&& ("single stream wrote "@ + text::decimal(downloaded as nat)).is_prefix_of(
                outcome->Err_0->InvalidResponse_0,
            )
            &&& text::decimal(size as nat).is_suffix_of(outcome->Err_0->InvalidResponse_0)
        }),
{
    let told = stream_outcome(
        offset,
        downloaded,
        Some(size),
        url,
        output_path,
    )->Err_0->InvalidResponse_0;
    let lead = "single stream wrote "@ + text::decimal(downloaded as nat);
    let back = text::decimal(size as nat);
    assert(told.take(lead.len() as int) =~= lead);
    assert(told.skip(told.len() - back.len()) =~= back);
}

/// A report on a stream tells the bytes that are there, and one worker while data comes in.
pub proof fn law_stream_reports_tell_what_is_there(
    stream: SingleStream,
    phase: DownloadPhase,
    url: &str,
    output_path: &str,
    report: Option<DownloadProgress>,
)
    requires
        call_ensures(SingleStream::report, (&stream, true, phase, url, output_path), report),
    ensures
        report is Some,
        report->Some_0.kind == DownloadKind::Http,
        report->Some_0.phase == phase,
        report->Some_0.source@ == url@,
        report->Some_0.output_path@ == output_path@,
        report->Some_0.downloaded_bytes == stream.downloaded,
        report->Some_0.total_bytes == stream.total_size,
        phase == DownloadPhase::Downloading ==> report->Some_0.active_workers == 1,
        phase != DownloadPhase::Downloading ==> report->Some_0.active_workers == 0,
        report->Some_0.completed_chunks is None && report->Some_0.total_chunks is None,
{
}

} // verus!
