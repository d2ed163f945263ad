//! Finding out what a server offers before the download starts.
use crate::error::{DlError, DlErrorView};
use crate::headers;
use crate::headers::ResponseHead;
use crate::text;
use vstd::prelude::*;
use vstd::string::*;

verus! {

/// What is known of a file before its download.
#[derive(Debug, PartialEq, Eq)]
pub struct HttpProbe {
    pub total_size: Option<u64>,
    pub ranges_supported: bool,
    pub etag: Option<String>,
    pub last_modified: Option<String>,
}

/// An `HttpProbe` with the characters of its texts.
pub struct ProbeView {
    pub total_size: Option<u64>,
    pub ranges_supported: bool,
    pub etag: Option<Seq<char>>,
    pub last_modified: Option<Seq<char>>,
}

impl View for HttpProbe {
    type V = ProbeView;

    open spec fn view(&self) -> ProbeView {
        ProbeView {
            total_size: self.total_size,
            ranges_supported: self.ranges_supported,
            etag: headers::opt_text(self.etag),
            last_modified: headers::opt_text(self.last_modified),
        }
    }
}

/// The requests of a probe, in the order in which they are tried: a GET for the first byte, a
/// HEAD, a plain GET.
#[derive(Clone, Copy, Debug, PartialEq, Eq, Structural)]
pub enum ProbeStage {
    FirstByte,
    Head,
    Get,
}

/// What comes after the reply to a probe request.
#[derive(Debug, PartialEq, Eq)]
pub enum ProbeStep {
    Ask(ProbeStage),
    Found(HttpProbe),
    Failed(DlError),
}

pub enum ProbeStepView {
    Ask(ProbeStage),
    Found(ProbeView),
    Failed(DlErrorView),
}

impl View for ProbeStep {
    type V = ProbeStepView;

    open spec fn view(&self) -> ProbeStepView {
        match *self {
            ProbeStep::Ask(stage) => ProbeStepView::Ask(stage),
            ProbeStep::Found(probe) => ProbeStepView::Found(probe@),
            ProbeStep::Failed(error) => ProbeStepView::Failed(error@),
        }
    }
}

/// A number read from a header, as a size.
pub open spec fn as_size(n: Option<nat>) -> Option<u64> {
    match n {
        Some(size) => Some(size as u64),
        None => None,
    }
}

/// What a response tells of the file, given what it tells of sizes and ranges.
pub open spec fn probed(
    head: ResponseHead,
    total_size: Option<nat>,
    ranges_supported: bool,
) -> ProbeView {
    ProbeView {
        total_size: as_size(total_size),
        ranges_supported,
        etag: headers::header_text(head.etag),
        last_modified: headers::header_text(head.last_modified),
    }
}

/// What a reply to a request without a range tells of the file.
pub open spec fn probed_plain(head: ResponseHead) -> ProbeView {
    probed(
        head,
        headers::header_number(head.content_length),
        headers::offers_ranges(head.accept_ranges),
    )
}

/// Nothing is known of the file.
pub open spec fn unknown_probe() -> ProbeView {
    ProbeView { total_size: None, ranges_supported: false, etag: None, last_modified: None }
}

/// What comes after the reply to a probe request.
pub open spec fn probe_next(
    stage: ProbeStage,
    reply: Result<ResponseHead, DlErrorView>,
) -> ProbeStepView {
    match (stage, reply) {
        (ProbeStage::FirstByte, Err(error)) => ProbeStepView::Failed(error),
        (ProbeStage::FirstByte, Ok(head)) => if head.status == 206 {
            ProbeStepView::Found(
                probed(head, headers::header_range_total(head.content_range), true),
            )
        } else if headers::is_success(head.status) {
            ProbeStepView::Found(probed(head, headers::header_number(head.content_length), false))
        } else {
            ProbeStepView::Ask(ProbeStage::Head)
        },
        (ProbeStage::Head, Err(_)) => ProbeStepView::Ask(ProbeStage::Get),
        (ProbeStage::Head, Ok(head)) => if headers::is_success(head.status) {
            ProbeStepView::Found(probed_plain(head))
        } else {
            ProbeStepView::Ask(ProbeStage::Get)
        },
        (ProbeStage::Get, Err(error)) => ProbeStepView::Failed(error),
        (ProbeStage::Get, Ok(head)) => if headers::is_success(head.status) {
            ProbeStepView::Found(probed_plain(head))
        } else {
            ProbeStepView::Found(unknown_probe())
        },
    }
}

pub open spec fn reply_view(reply: Result<ResponseHead, DlError>) -> Result<
    ResponseHead,
    DlErrorView,
> {
    match reply {
        Ok(head) => Ok(head),
        Err(error) => Err(error@),
    }
}

/// The `Range` header of a probe request, if it has one.
pub fn probe_range(stage: ProbeStage) -> (r: Option<&'static str>)
    ensures
        match r {
            Some(value) => stage == ProbeStage::FirstByte && value@ == "bytes=0-0"@,
            None => stage != ProbeStage::FirstByte,
        },
{
    match stage {
        ProbeStage::FirstByte => Some("bytes=0-0"),
        _ => None,
    }
}

fn probe_of(head: &ResponseHead, total_size: Option<u64>, ranges_supported: bool) -> (r: HttpProbe)
    ensures
        r@.total_size == total_size,
        r@.ranges_supported == ranges_supported,
        r@.etag == headers::header_text(head.etag),
        r@.last_modified == headers::header_text(head.last_modified),
{
    HttpProbe {
        total_size,
        ranges_supported,
        etag: headers::header_string(&head.etag),
        last_modified: headers::header_string(&head.last_modified),
    }
}

/// What comes after the reply to the request of `stage`; an `Err` is a request that got no
/// response.
pub fn probe_server(stage: ProbeStage, reply: Result<ResponseHead, DlError>) -> (r: ProbeStep)
    ensures
        r@ == probe_next(stage, reply_view(reply)),
{
    match reply {
        Err(error) => match stage {
            ProbeStage::Head => ProbeStep::Ask(ProbeStage::Get),
            _ => ProbeStep::Failed(error),
        },
        Ok(head) => {
            let success: bool = 200 <= head.status && head.status <= 299;
            match stage {
                ProbeStage::FirstByte => {
                    if head.status == 206 {
                        let total_size = headers::parse_content_range_total(&head.content_range);
                        ProbeStep::Found(probe_of(&head, total_size, true))
                    } else if success {
                        let total_size = headers::header_u64(&head.content_length);
                        ProbeStep::Found(probe_of(&head, total_size, false))
                    } else {
                        ProbeStep::Ask(ProbeStage::Head)
                    }
                },
                _ => {
                    if success {
                        let total_size = headers::header_u64(&head.content_length);
                        let ranges_supported = headers::accepts_ranges(&head.accept_ranges);
                        ProbeStep::Found(probe_of(&head, total_size, ranges_supported))
                    } else {
                        match stage {
                            ProbeStage::Head => ProbeStep::Ask(ProbeStage::Get),
                            _ => ProbeStep::Found(
                                HttpProbe {
                                    total_size: None,
                                    ranges_supported: false,
                                    etag: None,
                                    last_modified: None,
                                },
                            ),
                        }
                    }
                },
            }
        },
    }
}

/// How many requests a probe may still make after this one.
pub open spec fn requests_left(stage: ProbeStage) -> nat {
    match stage {
        ProbeStage::FirstByte => 2,
        ProbeStage::Head => 1,
        ProbeStage::Get => 0,
    }
}

/// A probe makes at most three requests: each further one leaves fewer to make.
pub proof fn law_probe_ends(stage: ProbeStage, reply: Result<ResponseHead, DlErrorView>)
    ensures
        match probe_next(stage, reply) {
            ProbeStepView::Ask(further) => requests_left(further) < requests_left(stage),
            _ => true,
        },
{
}

/// Ranges are taken to be supported only where the server answered one or offered them.
pub proof fn law_ranges_need_an_offer(stage: ProbeStage, reply: Result<ResponseHead, DlErrorView>)
    ensures
        match probe_next(stage, reply) {
            ProbeStepView::Found(probe) => probe.ranges_supported ==> reply is Ok && (
            (stage == ProbeStage::FirstByte && reply->Ok_0.status == 206) || (stage
                != ProbeStage::FirstByte && headers::offers_ranges(reply->Ok_0.accept_ranges))),
            _ => true,
        },
{
}

/// The text is printed in ASCII.
pub open spec fn is_printed(text: Seq<char>) -> bool {
    forall|i: int| 0 <= i < text.len() ==> ' ' <= #[trigger] text[i] <= '~'
}

/// The first byte, where the server sends it as a part, tells that ranges are supported, and the
/// `Content-Range` that comes with it tells the size of the file, whatever it is.
pub proof fn law_first_byte_tells_the_size(head: ResponseHead, lead: Seq<char>, n: u64)
    requires
        head.status == 206,
        head.content_range is Some,
        headers::spells(
            head.content_range->Some_0@,
            lead.push('/') + text::decimal(n as nat),
        ),
        is_printed(lead),
    ensures
        ({
            let step = probe_next(ProbeStage::FirstByte, Ok(head));
            &&& step is Found
            &&& step->Found_0.ranges_supported
            &&& step->Found_0.total_size == Some(n)
        }),
{
    headers::law_content_range_tells_its_size(head.content_range->Some_0, lead, n);
}

/// Any other success tells the size by its length, whatever it is, and none without one; ranges
/// are taken from its offer, except where the first byte was asked for and all of the file came.
pub proof fn law_length_tells_the_size(stage: ProbeStage, head: ResponseHead, n: u64)
    requires
        200 <= head.status <= 299,
        stage != ProbeStage::FirstByte || head.status != 206,
    ensures
        ({
            let step = probe_next(stage, Ok(head));
            &&& step is Found
            &&& head.content_length is Some && headers::spells(
                head.content_length->Some_0@,
                text::decimal(n as nat),
            ) ==> step->Found_0.total_size == Some(n)
            &&& head.content_length is None ==> step->Found_0.total_size is None
            &&& stage == ProbeStage::FirstByte ==> !step->Found_0.ranges_supported
            &&& stage != ProbeStage::FirstByte ==> step->Found_0.ranges_supported
                == headers::offers_ranges(head.accept_ranges)
        }),
{
    if head.content_length is Some && headers::spells(
        head.content_length->Some_0@,
        text::decimal(n as nat),
    ) {
        headers::law_printed_header_number_reads_back(head.content_length->Some_0, n);
    }
}

/// What a probe finds has the validators that the server sent, character by character.
pub proof fn law_validators_are_those_of_the_server(
    stage: ProbeStage,
    head: ResponseHead,
    etag: Seq<char>,
    last_modified: Seq<char>,
)
    requires
        200 <= head.status <= 299,
        is_printed(etag),
        is_printed(last_modified),
    ensures
        ({
            let step = probe_next(stage, Ok(head));
            &&& step is Found
            &&& head.etag is Some && headers::spells(head.etag->Some_0@, etag)
                ==> step->Found_0.etag == Some(etag)
            &&& head.etag is None ==> step->Found_0.etag is None
            &&& head.last_modified is Some && headers::spells(
                head.last_modified->Some_0@,
                last_modified,
            ) ==> step->Found_0.last_modified == Some(last_modified)
            &&& head.last_modified is None ==> step->Found_0.last_modified is None
        }),
{
    if head.etag is Some && headers::spells(head.etag->Some_0@, etag) {
        headers::law_printed_values_are_their_text(head.etag->Some_0, etag);
    }
    if head.last_modified is Some && headers::spells(head.last_modified->Some_0@, last_modified) {
        headers::law_printed_values_are_their_text(head.last_modified->Some_0, last_modified);
    }
}

/// A request that fails is followed by the next one, as long as there is one; a probe fails only
/// with a first or a last request that got no response, and a last one that was refused tells
/// nothing.
pub proof fn law_failed_probes_go_on(head: ResponseHead, error: DlErrorView)
    requires
        !(200 <= head.status <= 299),
    ensures
        probe_next(ProbeStage::FirstByte, Ok(head)) == ProbeStepView::Ask(ProbeStage::Head),
        probe_next(ProbeStage::Head, Ok(head)) == ProbeStepView::Ask(ProbeStage::Get),
        probe_next(ProbeStage::Head, Err(error)) == ProbeStepView::Ask(ProbeStage::Get),
        probe_next(ProbeStage::FirstByte, Err(error)) == ProbeStepView::Failed(error),
        probe_next(ProbeStage::Get, Err(error)) == ProbeStepView::Failed(error),
        ({
            let step = probe_next(ProbeStage::Get, Ok(head));
            &&& step is Found
            &&& step->Found_0.total_size is None
            &&& !step->Found_0.ranges_supported
            &&& step->Found_0.etag is None
            &&& step->Found_0.last_modified is None
        }),
{
}

/// The server is asked for the first byte alone, and then for no part of the file.
pub proof fn law_only_the_first_byte_is_asked_for(stage: ProbeStage, range: Option<&'static str>)
    requires
        call_ensures(probe_range, (stage,), range),
    ensures
        stage == ProbeStage::FirstByte ==> range is Some && range->Some_0@ == "bytes="@
            + text::decimal(0) + "-"@ + text::decimal(0),
        stage != ProbeStage::FirstByte ==> range is None,
{
    reveal_strlit("bytes=0-0");
    reveal_strlit("bytes=");
    reveal_strlit("-");
    text::law_printed_number_is_written_in_digits(0);
    if range is Some {
        assert(text::decimal(0) =~= seq!['0']);
        assert(range->Some_0@ =~= "bytes="@ + text::decimal(0) + "-"@ + text::decimal(0));
    }
}

/// Whatever size a server tells behind the slash of its `Content-Range` is the size of the file.
pub proof fn law_probe_finds_the_told_size(
    head: ResponseHead,
    lead: Seq<char>,
    n: u64,
    step: ProbeStep,
)
    requires
        call_ensures(probe_server, (ProbeStage::FirstByte, Ok(head)), step),
        head.status == 206,
        head.content_range is Some,
        headers::spells(head.content_range->Some_0@, lead.push('/') + text::decimal(n as nat)),
        is_printed(lead),
    ensures
        step is Found,
        step->Found_0.ranges_supported,
        step->Found_0.total_size == Some(n),
{
    law_first_byte_tells_the_size(head, lead, n);
}

} // verus!
