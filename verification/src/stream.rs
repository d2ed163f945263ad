//! Requests for parts of a file, and the bytes that come in for them.
use crate::chunks::Segment;
use crate::error;
use crate::error::{DlError, DlErrorView};
use crate::headers::ResponseHead;
use crate::response;
use crate::text;
use vstd::prelude::*;
use vstd::string::*;

verus! {

/// The `Range` value for a segment.
pub open spec fn segment_range(segment: Segment) -> Seq<char> {
    "bytes="@ + text::decimal(segment.start as nat) + "-"@ + text::decimal(segment.end as nat)
}

/// What a request for a segment is called in a report.
pub open spec fn segment_context(segment: Segment) -> Seq<char> {
    "range request for segment "@ + text::decimal(segment.index as nat)
}

/// The `Range` header of the request for a segment.
pub fn range_header(segment: &Segment) -> (r: String)
    ensures
        r@ == segment_range(*segment),
{
    let mut out: String = "bytes=".to_string();
    text::append_decimal(&mut out, segment.start);
    out.append("-");
    text::append_decimal(&mut out, segment.end);
    out
}

/// Whether the response to the request for a segment is one to read: only partial content is.
pub fn is_partial_content(head: &ResponseHead) -> (r: bool)
    ensures
        r == (head.status == 206),
{
    head.status == 206
}

/// What the response to the request for a segment comes to: its body is to be read, or it is an
/// error. `body` is the page that came with an unwanted status, if it could be read as text.
pub fn send_range_request(segment: &Segment, head: &ResponseHead, body: Option<&str>) -> (r: Result<
    (),
    DlError,
>)
    requires
        head.wf(),
    ensures
        match r {
            Ok(()) => head.status == 206,
            Err(error) => head.status != 206 && error@ == response::rejection(
                *head,
                response::opt_str(body),
                segment_context(*segment),
            ),
        },
{
    if is_partial_content(head) {
        Ok(())
    } else {
        let mut context: String = "range request for segment ".to_string();
        text::append_decimal(&mut context, segment.index as u64);
        Err(response::rejected(head, body, &context))
    }
}

/// Nanoseconds between two reports on the same stream, at least.
pub const REPORT_INTERVAL: u64 = 100_000_000;

/// Lets a report through with every 32nd piece of data, if the last report is long enough ago.
#[derive(Debug)]
pub struct ReportPacer {
    pub pieces: u32,
    /// When the last report was let through, in nanoseconds.
    pub last_report: u64,
}

/// The time from `earlier` to `later`; none if the clock ran backwards.
pub open spec fn elapsed(earlier: u64, later: u64) -> int {
    if later < earlier {
        0
    } else {
        later - earlier
    }
}

/// Whether the piece that comes at `now` lets a report through.
pub open spec fn lets_report(pacer: ReportPacer, now: u64) -> bool {
    &&& (pacer.pieces + 1) % 32 == 0
    &&& elapsed(pacer.last_report, now) >= REPORT_INTERVAL
}

/// The pacer after a piece that was written at `now`.
pub open spec fn paced(pacer: ReportPacer, now: u64) -> ReportPacer {
    ReportPacer {
        pieces: ((pacer.pieces + 1) % 0x1_0000_0000) as u32,
        last_report: if lets_report(pacer, now) {
            now
        } else {
            pacer.last_report
        },
    }
}

impl ReportPacer {
    pub fn new(now: u64) -> (r: ReportPacer)
        ensures
            r == (ReportPacer { pieces: 0, last_report: now }),
    {
        ReportPacer { pieces: 0, last_report: now }
    }

    /// Counts a piece of data that came at `now`; whether a report is due.
    pub fn count_piece(&mut self, now: u64) -> (r: bool)
        ensures
            r == lets_report(*old(self), now),
            *final(self) == paced(*old(self), now),
    {
        self.pieces = if self.pieces == u32::MAX {
            0
        } else {
            self.pieces + 1
        };
        if self.pieces % 32 == 0 {
            let since: u64 = if now < self.last_report {
                0
            } else {
                now - self.last_report
            };
            if since >= REPORT_INTERVAL {
                self.last_report = now;
                return true;
            }
        }
        false
    }
}

/// The bytes of a segment that have come in so far.
#[derive(Debug)]
pub struct SegmentMeter {
    pub segment: Segment,
    pub written: u64,
}

/// The report on a segment whose body is too long.
pub open spec fn overlong_message(segment: Segment) -> Seq<char> {
    "segment "@ + text::decimal(segment.index as nat) + " exceeded expected length "@
        + text::decimal(segment.size() as nat)
}

/// The report on a segment whose body has the wrong length.
pub open spec fn wrong_length_message(segment: Segment, written: int) -> Seq<char> {
    "segment "@ + text::decimal(segment.index as nat) + " wrote "@ + text::decimal(written as nat)
        + " bytes, expected "@ + text::decimal(segment.size() as nat)
}

/// The count of a meter at `written` after `len` more bytes, which may not go past the end of the
/// segment.
pub open spec fn received(segment: Segment, written: int, len: u64) -> Result<int, DlErrorView> {
    if written + len > segment.size() {
        Err(DlErrorView::InvalidResponse(overlong_message(segment)))
    } else {
        Ok(written + len)
    }
}

/// What the end of the body comes to after `written` bytes.
pub open spec fn finished(segment: Segment, written: int) -> Result<(), DlErrorView> {
    if written != segment.size() {
        Err(DlErrorView::InvalidResponse(wrong_length_message(segment, written)))
    } else {
        Ok(())
    }
}

impl SegmentMeter {
    pub open spec fn wf(self) -> bool {
        &&& self.segment.wf()
        &&& self.written <= self.segment.size()
    }

    pub fn new(segment: Segment) -> (r: SegmentMeter)
        requires
            segment.wf(),
        ensures
            r.wf(),
            r.segment == segment,
            r.written == 0,
    {
        SegmentMeter { segment, written: 0 }
    }

    /// Takes in `len` more bytes; it is an error if they go past the end of the segment.
    pub fn receive(&mut self, len: u64) -> (r: Result<(), DlError>)
        requires
            old(self).wf(),
        ensures
            final(self).wf(),
            final(self).segment == old(self).segment,
            match received(old(self).segment, old(self).written as int, len) {
                Ok(written) => r is Ok && final(self).written == written,
                Err(error) => r is Err && r->Err_0@ == error && final(self).written == old(
                    self,
                ).written,
            },
    {
        if len > self.segment.len() - self.written {
            let mut message: String = "segment ".to_string();
            text::append_decimal(&mut message, self.segment.index as u64);
            message.append(" exceeded expected length ");
            text::append_decimal(&mut message, self.segment.len());
            return Err(DlError::InvalidResponse(message));
        }
        self.written = self.written + len;
        Ok(())
    }

    /// Ends the segment; it is an error if not all of its bytes have come.
    pub fn finish(&self) -> (r: Result<(), DlError>)
        requires
            self.wf(),
        ensures
            match finished(self.segment, self.written as int) {
                Ok(()) => r is Ok,
                Err(error) => r is Err && r->Err_0@ == error,
            },
    {
        if self.written != self.segment.len() {
            let mut message: String = "segment ".to_string();
            text::append_decimal(&mut message, self.segment.index as u64);
            message.append(" wrote ");
            text::append_decimal(&mut message, self.written);
            message.append(" bytes, expected ");
            text::append_decimal(&mut message, self.segment.len());
            return Err(DlError::InvalidResponse(message));
        }
        Ok(())
    }
}

/// A segment whose body is read into the file.
#[derive(Debug)]
pub struct SegmentStream {
    pub meter: SegmentMeter,
    pub pacer: ReportPacer,
}

/// What happened to the body of a segment.
#[derive(Debug)]
pub enum StreamEvent {
    /// A piece of it came in.
    Piece { len: u64 },
    /// A piece of it was written, at the moment `now`.
    Written { now: u64 },
    /// Nothing more comes in.
    Ended,
    /// It could not be read or written.
    Broken(DlError),
}

pub enum StreamEventView {
    Piece { len: u64 },
    Written { now: u64 },
    Ended,
    Broken(DlErrorView),
}

impl View for StreamEvent {
    type V = StreamEventView;

    open spec fn view(&self) -> StreamEventView {
        match *self {
            StreamEvent::Piece { len } => StreamEventView::Piece { len },
            StreamEvent::Written { now } => StreamEventView::Written { now },
            StreamEvent::Ended => StreamEventView::Ended,
            StreamEvent::Broken(error) => StreamEventView::Broken(error@),
        }
    }
}

/// What is to be done with the body of a segment next.
#[derive(Debug, PartialEq, Eq)]
pub enum StreamAction {
    /// Write the piece behind those before it.
    Write,
    /// Count the piece as downloaded, and report it if that is due.
    Count { report: bool },
    /// Bring everything that was written to the file; the segment is there then.
    Flush,
    Fail(DlError),
}

pub enum StreamActionView {
    Write,
    Count { report: bool },
    Flush,
    Fail(DlErrorView),
}

impl View for StreamAction {
    type V = StreamActionView;

    open spec fn view(&self) -> StreamActionView {
        match *self {
            StreamAction::Write => StreamActionView::Write,
            StreamAction::Count { report } => StreamActionView::Count { report },
            StreamAction::Flush => StreamActionView::Flush,
            StreamAction::Fail(error) => StreamActionView::Fail(error@),
        }
    }
}

/// What the body of a segment is and wants after an event: a piece that fits is written, one
/// that does not is an error, and the end is right only after every byte of the segment.
pub open spec fn stream_next(stream: SegmentStream, event: StreamEventView) -> (
    SegmentStream,
    StreamActionView,
) {
    let segment = stream.meter.segment;
    let written = stream.meter.written as int;
    match event {
        StreamEventView::Piece { len } => match received(segment, written, len) {
            Ok(count) => (
                SegmentStream {
                    meter: SegmentMeter { segment, written: count as u64 },
                    pacer: stream.pacer,
                },
                StreamActionView::Write,
            ),
            Err(error) => (stream, StreamActionView::Fail(error)),
        },
        StreamEventView::Written { now } => (
            SegmentStream { meter: stream.meter, pacer: paced(stream.pacer, now) },
            StreamActionView::Count { report: lets_report(stream.pacer, now) },
        ),
        StreamEventView::Ended => match finished(segment, written) {
            Ok(()) => (stream, StreamActionView::Flush),
            Err(error) => (stream, StreamActionView::Fail(error)),
        },
        StreamEventView::Broken(error) => (stream, StreamActionView::Fail(error)),
    }
}

impl SegmentStream {
    /// The body of a segment of which nothing has come in.
    pub fn new(segment: Segment, now: u64) -> (r: SegmentStream)
        requires
            segment.wf(),
        ensures
            r.meter.wf(),
            r == (SegmentStream {
                meter: SegmentMeter { segment, written: 0 },
                pacer: ReportPacer { pieces: 0, last_report: now },
            }),
    {
        SegmentStream { meter: SegmentMeter::new(segment), pacer: ReportPacer::new(now) }
    }
}

/// Takes the body of a segment on after an event; what is to be done next.
pub fn stream_response_to_file(stream: &mut SegmentStream, event: StreamEvent) -> (r: StreamAction)
    requires
        old(stream).meter.wf(),
    ensures
        final(stream).meter.wf(),
        (*final(stream), r@) == stream_next(*old(stream), event@),
{
    match event {
        StreamEvent::Piece { len } => match stream.meter.receive(len) {
            Ok(()) => StreamAction::Write,
            Err(error) => StreamAction::Fail(error),
        },
        StreamEvent::Written { now } => {
            let report: bool = stream.pacer.count_piece(now);
            StreamAction::Count { report }
        },
        StreamEvent::Ended => match stream.meter.finish() {
            Ok(()) => StreamAction::Flush,
            Err(error) => StreamAction::Fail(error),
        },
        StreamEvent::Broken(error) => StreamAction::Fail(error),
    }
}

/// The bytes that a list of pieces brings.
pub open spec fn pieces_size(pieces: Seq<u64>) -> int
    decreases pieces.len(),
{
    if pieces.len() == 0 {
        0
    } else {
        pieces_size(pieces.drop_last()) + pieces.last()
    }
}

/// How many bytes a meter counts after a list of pieces, unless one of them goes too far.
pub open spec fn metered(segment: Segment, pieces: Seq<u64>) -> Result<int, DlErrorView>
    decreases pieces.len(),
{
    if pieces.len() == 0 {
        Ok(0)
    } else {
        match metered(segment, pieces.drop_last()) {
            Ok(written) => received(segment, written, pieces.last()),
            Err(error) => Err(error),
        }
    }
}

/// What a whole body, piece by piece, comes to.
pub open spec fn body_outcome(segment: Segment, pieces: Seq<u64>) -> Result<(), DlErrorView> {
    match metered(segment, pieces) {
        Ok(written) => finished(segment, written),
        Err(error) => Err(error),
    }
}

/// However a body is cut into pieces, it is accepted exactly if it has the length of its segment.
pub proof fn law_body_needs_exact_length(segment: Segment, pieces: Seq<u64>)
    requires
        segment.wf(),
    ensures
        body_outcome(segment, pieces) is Ok <==> pieces_size(pieces) == segment.size(),
        body_outcome(segment, pieces) is Err ==> body_outcome(segment, pieces)->Err_0
            == DlErrorView::InvalidResponse(
            if pieces_size(pieces) > segment.size() {
                overlong_message(segment)
            } else {
                wrong_length_message(segment, pieces_size(pieces))
            },
        ),
{
    lemma_metered(segment, pieces);
}

proof fn lemma_metered(segment: Segment, pieces: Seq<u64>)
    requires
        segment.wf(),
    ensures
        pieces_size(pieces) >= 0,
        metered(segment, pieces) == (if pieces_size(pieces) > segment.size() {
            Err::<int, DlErrorView>(DlErrorView::InvalidResponse(overlong_message(segment)))
        } else {
            Ok::<int, DlErrorView>(pieces_size(pieces))
        }),
    decreases pieces.len(),
{
    if pieces.len() > 0 {
        lemma_metered(segment, pieces.drop_last());
    }
}

/// A body after a list of pieces, each with its length and the moment at which it was written,
/// unless one of them was an error.
pub open spec fn stream_run(segment: Segment, start: u64, pieces: Seq<(u64, u64)>) -> Result<
    SegmentStream,
    DlErrorView,
>
    decreases pieces.len(),
{
    if pieces.len() == 0 {
        Ok(
            SegmentStream {
                meter: SegmentMeter { segment, written: 0 },
                pacer: ReportPacer { pieces: 0, last_report: start },
            },
        )
    } else {
        let (len, now) = pieces.last();
        match stream_run(segment, start, pieces.drop_last()) {
            Ok(stream) => match stream_next(stream, StreamEventView::Piece { len }) {
                (taken, StreamActionView::Fail(error)) => Err(error),
                (taken, _) => Ok(stream_next(taken, StreamEventView::Written { now }).0),
            },
            Err(error) => Err(error),
        }
    }
}

/// What a body comes to at its end, after a list of pieces.
pub open spec fn stream_end(segment: Segment, start: u64, pieces: Seq<(u64, u64)>) -> Result<
    (),
    DlErrorView,
> {
    match stream_run(segment, start, pieces) {
        Ok(stream) => match stream_next(stream, StreamEventView::Ended).1 {
            StreamActionView::Fail(error) => Err(error),
            _ => Ok(()),
        },
        Err(error) => Err(error),
    }
}

pub open spec fn piece_lengths(pieces: Seq<(u64, u64)>) -> Seq<u64> {
    pieces.map_values(|piece: (u64, u64)| piece.0)
}

/// Step by step, a body comes to what its pieces come to: it is flushed to the file exactly if
/// they have the length of the segment, whenever they are written.
pub proof fn law_stream_comes_to_its_body(segment: Segment, start: u64, pieces: Seq<(u64, u64)>)
    requires
        segment.wf(),
    ensures
        stream_end(segment, start, pieces) == body_outcome(segment, piece_lengths(pieces)),
        stream_end(segment, start, pieces) is Ok <==> pieces_size(piece_lengths(pieces))
            == segment.size(),
{
    lemma_stream_run(segment, start, pieces);
    law_body_needs_exact_length(segment, piece_lengths(pieces));
}

proof fn lemma_stream_run(segment: Segment, start: u64, pieces: Seq<(u64, u64)>)
    requires
        segment.wf(),
    ensures
        match stream_run(segment, start, pieces) {
            Ok(stream) => {
                &&& stream.meter.wf()
                &&& stream.meter.segment == segment
                &&& metered(segment, piece_lengths(pieces)) == Ok::<int, DlErrorView>(
                    stream.meter.written as int,
                )
            },
            Err(error) => metered(segment, piece_lengths(pieces)) == Err::<int, DlErrorView>(error),
        },
    decreases pieces.len(),
{
    let lengths = piece_lengths(pieces);
    if pieces.len() == 0 {
        assert(lengths.len() == 0);
    } else {
        lemma_stream_run(segment, start, pieces.drop_last());
        assert(lengths.drop_last() =~= piece_lengths(pieces.drop_last()));
        assert(lengths.last() == pieces.last().0);
    }
}

/// A body of the wrong length is worth another try.
pub proof fn law_wrong_length_is_retryable(segment: Segment, written: u64)
    ensures
        error::retryable(DlErrorView::InvalidResponse(overlong_message(segment))),
        error::retryable(
            DlErrorView::InvalidResponse(wrong_length_message(segment, written as int)),
        ),
{
    reveal_strlit("segment ");
    reveal_strlit(" exceeded expected length ");
    reveal_strlit(" wrote ");
    reveal_strlit(" bytes, expected ");
    text::lemma_decimal_digits(segment.index as nat);
    text::lemma_decimal_digits(segment.size() as nat);
    text::lemma_decimal_digits(written as nat);
    lemma_no_client_error(overlong_message(segment));
    lemma_no_client_error(wrong_length_message(segment, written as int));
}

/// A text without the letter u tells of no status.
proof fn lemma_no_client_error(message: Seq<char>)
    requires
        !message.contains('u'),
    ensures
        !text::contains_text(message, "returned 4"@),
{
    reveal_strlit("returned 4");
    assert forall|at: int| !#[trigger] text::occurs_at(message, "returned 4"@, at) by {
        if text::occurs_at(message, "returned 4"@, at) {
            assert(message.subrange(at, at + 10)[3] == 'u');
            assert(message[at + 3] == 'u');
        }
    }
}

/// The `Range` value for a segment names its first and its last byte.
pub proof fn law_range_names_first_and_last_byte(segment: Segment)
    ensures
        ({
            let range = segment_range(segment);
            let first = text::decimal(segment.start as nat);
            let last = text::decimal(segment.end as nat);
            &&& range.len() == 7 + first.len() + last.len()
            &&& range.take(6) == "bytes="@
            &&& range.subrange(6, 6 + first.len() as int) == first
            &&& range[6 + first.len() as int] == '-'
            &&& range.skip(7 + first.len() as int) == last
        }),
{
    reveal_strlit("bytes=");
    reveal_strlit("-");
    let range = segment_range(segment);
    let first = text::decimal(segment.start as nat);
    let last = text::decimal(segment.end as nat);
    assert(range.take(6) =~= "bytes="@);
    assert(range.subrange(6, 6 + first.len() as int) =~= first);
    assert(range.skip(7 + first.len() as int) =~= last);
}

/// The report on a segment names it by its number, and the reports on its length end in the length
/// that it has.
pub proof fn law_reports_name_the_segment(segment: Segment, written: u64)
    ensures
        segment_context(segment) == "range request for segment "@ + text::decimal(
            segment.index as nat,
        ),
        ("segment "@ + text::decimal(segment.index as nat)).is_prefix_of(overlong_message(segment)),
        text::decimal(segment.size() as nat).is_suffix_of(overlong_message(segment)),
        ("segment "@ + text::decimal(segment.index as nat) + " wrote "@ + text::decimal(
            written as nat,
        )).is_prefix_of(wrong_length_message(segment, written as int)),
        text::decimal(segment.size() as nat).is_suffix_of(
            wrong_length_message(segment, written as int),
        ),
{
    let index = text::decimal(segment.index as nat);
    let size = text::decimal(segment.size() as nat);
    let overlong = overlong_message(segment);
    let wrong = wrong_length_message(segment, written as int);
    let told = "segment "@ + index + " wrote "@ + text::decimal(written as nat);
    assert(overlong.take(("segment "@ + index).len() as int) =~= "segment "@ + index);
    assert(overlong.subrange(overlong.len() - size.len(), overlong.len() as int) =~= size);
    assert(wrong.take(told.len() as int) =~= told);
    assert(wrong.subrange(wrong.len() - size.len(), wrong.len() as int) =~= size);
}

/// A piece that fits is written and counted, one that does not is an error, and what breaks is
/// handed on; none of it changes the segment.
pub proof fn law_pieces_are_written_and_counted(
    stream: SegmentStream,
    len: u64,
    now: u64,
    error: DlErrorView,
)
    requires
        stream.meter.wf(),
    ensures
        ({
            let (after, action) = stream_next(stream, StreamEventView::Piece { len });
            let left = stream.meter.segment.end - stream.meter.segment.start + 1
                - stream.meter.written;
            &&& after.meter.segment == stream.meter.segment
            &&& len <= left ==> action is Write && after.meter.written == stream.meter.written + len
            &&& len > left ==> action is Fail && action->Fail_0 is InvalidResponse
        }),
        stream_next(stream, StreamEventView::Written { now }).1 is Count,
        stream_next(stream, StreamEventView::Written { now }).0.meter == stream.meter,
        stream_next(stream, StreamEventView::Broken(error)).1 == StreamActionView::Fail(error),
        stream_next(stream, StreamEventView::Ended).1 is Flush <==> stream.meter.written
            == stream.meter.segment.end - stream.meter.segment.start + 1,
{
}

/// The report that a written piece may bring: with every thirty-second piece, if the last report
/// is a tenth of a second ago; and the pieces are counted on.
pub proof fn law_reports_are_paced(stream: SegmentStream, now: u64)
    requires
        stream.pacer.pieces < u32::MAX,
    ensures
        ({
            let (after, action) = stream_next(stream, StreamEventView::Written { now });
            let due = (stream.pacer.pieces + 1) % 32 == 0 && now >= stream.pacer.last_report
                + 100_000_000;
            &&& action == (StreamActionView::Count { report: due })
            &&& after.pacer.pieces == stream.pacer.pieces + 1
            &&& after.pacer.last_report == if due {
                now
            } else {
                stream.pacer.last_report
            }
        }),
{
}

/// The time that has passed is the difference, and none where the clock ran backwards.
pub proof fn law_elapsed_is_the_difference(earlier: u64, later: u64)
    ensures
        earlier <= later ==> earlier + elapsed(earlier, later) == later,
        earlier > later ==> elapsed(earlier, later) == 0,
{
}

/// A segment is read from a response of status 206 and from no other.
pub proof fn law_segments_are_read_from_parts(
    segment: Segment,
    head: ResponseHead,
    body: Option<&str>,
    outcome: Result<(), DlError>,
)
    requires
        call_ensures(send_range_request, (&segment, &head, body), outcome),
    ensures
        outcome is Ok <==> head.status == 206,
        head.status == 429 ==> outcome->Err_0 is RateLimited,
        head.status == 408 || 500 <= head.status <= 599 ==> outcome->Err_0 is ServerError,
{
    response::law_unwanted_statuses_are_told_apart(
        head,
        response::opt_str(body),
        segment_context(segment),
    );
}

} // verus!
