//! What an unwanted response is reported as.
use crate::error;
use crate::error::{DlError, DlErrorView};
use crate::headers;
use crate::headers::ResponseHead;
use crate::text;
use vstd::prelude::*;
use vstd::string::*;

verus! {

/// What is written between the tags `<tag>` and `</tag>`, the first such pair in `body`, without
/// the white space around it.
pub open spec fn tag_content(body: Seq<char>, tag: Seq<char>) -> Option<Seq<char>> {
    let open_tag = "<"@ + tag + ">"@;
    let close_tag = "</"@ + tag + ">"@;
    match text::position(body, open_tag, 0) {
        Some(at) => {
            let start = at + open_tag.len();
            match text::position(body, close_tag, start as int) {
                Some(end) => Some(text::trimmed(body.subrange(start as int, end))),
                None => None,
            }
        },
        None => None,
    }
}

/// `lead` and `part`, if there is a part.
pub open spec fn optional_part(lead: Seq<char>, part: Option<Seq<char>>) -> Seq<char> {
    match part {
        Some(text) => lead + text,
        None => Seq::empty(),
    }
}

/// The error that a response body in XML tells of.
pub open spec fn response_error(body: Seq<char>) -> Option<Seq<char>> {
    match tag_content(body, "Code"@) {
        Some(code) => Some(
            code + optional_part(": "@, tag_content(body, "Message"@)) + optional_part(
                "\nCanonicalRequest calculated by S3:\n"@,
                tag_content(body, "CanonicalRequest"@),
            ) + optional_part(
                "\nStringToSign calculated by S3:\n"@,
                tag_content(body, "StringToSign"@),
            ),
        ),
        None => None,
    }
}

/// What the http crate prints for a status code: the number and its reason phrase.
pub uninterp spec fn status_display(status: u16) -> Seq<char>;

/// The report on a response that cannot be used; `shown` is its status as it is printed.
pub open spec fn description(
    context: Seq<char>,
    shown: Seq<char>,
    server: Option<Seq<char>>,
    mitigation: Option<Seq<char>>,
    body: Option<Seq<char>>,
) -> Seq<char> {
    context + " returned "@ + shown + (match server {
        Some(name) => " (server: "@ + name + ")"@,
        None => Seq::empty(),
    }) + optional_part("; Cloudflare mitigation: "@, mitigation) + optional_part(
        "; response error: "@,
        match body {
            Some(page) => response_error(page),
            None => None,
        },
    )
}

pub open spec fn head_description(
    head: ResponseHead,
    body: Option<Seq<char>>,
    context: Seq<char>,
) -> Seq<char> {
    description(
        context,
        status_display(head.status),
        headers::header_text(head.server),
        headers::header_text(head.cf_mitigated),
        body,
    )
}

/// The wait that a response asks for, in seconds.
pub open spec fn requested_wait(head: ResponseHead) -> Option<u64> {
    match headers::header_number(head.retry_after) {
        Some(seconds) => Some(seconds as u64),
        None => None,
    }
}

/// The error that an unwanted status stands for: 429 is a rate limit, 5xx and 408 are failures
/// of the server, the rest are unusable responses.
pub open spec fn rejection(
    head: ResponseHead,
    body: Option<Seq<char>>,
    context: Seq<char>,
) -> DlErrorView {
    let message = head_description(head, body, context);
    if head.status == 429 {
        DlErrorView::RateLimited { message, retry_after: requested_wait(head) }
    } else if headers::is_server_error(head.status) || head.status == 408 {
        DlErrorView::ServerError(message)
    } else {
        DlErrorView::InvalidResponse(message)
    }
}

/// The characters of an optional text.
pub open spec fn opt_str(value: Option<&str>) -> Option<Seq<char>> {
    match value {
        Some(text) => Some(text@),
        None => None,
    }
}

/// What is written in the first element `tag` of `body`.
pub fn xml_tag<'a>(body: &'a str, tag: &str) -> (r: Option<&'a str>)
    ensures
        opt_str(r) == tag_content(body@, tag@),
{
    let mut open_tag: String = "<".to_string();
    open_tag.append(tag);
    open_tag.append(">");
    let mut close_tag: String = "</".to_string();
    close_tag.append(tag);
    close_tag.append(">");
    let chars = text::chars_of(body);
    let open_chars = text::chars_of(&open_tag);
    let close_chars = text::chars_of(&close_tag);
    match text::find_from(&chars, &open_chars, 0) {
        Some(at) => {
            proof {
                assert(text::occurs_at(chars@, open_chars@, at as int));
                assert(at + open_chars@.len() <= chars.len());
            }
            let start: usize = at + open_chars.len();
            match text::find_from(&chars, &close_chars, start) {
                Some(end) => {
                    let (from, to) = text::trim_range(&chars, start, end);
                    Some(body.substring_char(from, to))
                },
                None => None,
            }
        },
        None => None,
    }
}

fn append_optional(out: &mut String, lead: &str, part: Option<&str>)
    ensures
        final(out)@ == old(out)@ + optional_part(lead@, opt_str(part)),
{
    match part {
        Some(text) => {
            out.append(lead);
            out.append(text);
            proof {
                assert(out@ =~= old(out)@ + (lead@ + text@));
            }
        },
        None => {
            proof {
                assert(out@ =~= old(out)@ + Seq::<char>::empty());
            }
        },
    }
}

/// The error that a response body in XML tells of.
pub fn extract_response_error(body: &str) -> (r: Option<String>)
    ensures
        headers::opt_text(r) == response_error(body@),
{
    match xml_tag(body, "Code") {
        Some(code) => {
            let mut err: String = code.to_string();
            append_optional(&mut err, ": ", xml_tag(body, "Message"));
            append_optional(
                &mut err,
                "\nCanonicalRequest calculated by S3:\n",
                xml_tag(body, "CanonicalRequest"),
            );
            append_optional(
                &mut err,
                "\nStringToSign calculated by S3:\n",
                xml_tag(body, "StringToSign"),
            );
            Some(err)
        },
        None => None,
    }
}

/// Calls `StatusCode::from_u16` and the `Display` of `StatusCode`, of the http crate by way of
/// reqwest. A three-digit number is a status code, and it is printed as its digits, a space and
/// a reason phrase. Which phrase belongs to which code is left to the name.
#[verifier::external_body]
fn status_text(status: u16) -> (r: String)
    requires
        100 <= status <= 999,
    ensures
        r@ == status_display(status),
        (text::decimal(status as nat) + " "@).is_prefix_of(r@),
{
    reqwest::StatusCode::from_u16(status).unwrap().to_string()
}

/// The report on a response that cannot be used; `shown` is its status as it is printed, and
/// `body` the page that came with it, if it could be read as text.
pub fn describe_response(
    context: &str,
    shown: &str,
    server: Option<&str>,
    mitigation: Option<&str>,
    body: Option<&str>,
) -> (r: String)
    ensures
        r@ == description(context@, shown@, opt_str(server), opt_str(mitigation), opt_str(body)),
{
    let mut message: String = context.to_string();
    message.append(" returned ");
    message.append(shown);
    match server {
        Some(name) => {
            let ghost before = message@;
            message.append(" (server: ");
            message.append(name);
            message.append(")");
            proof {
                assert(message@ =~= before + (" (server: "@ + name@ + ")"@));
            }
        },
        None => {
            proof {
                assert(message@ =~= message@ + Seq::<char>::empty());
            }
        },
    }
    append_optional(&mut message, "; Cloudflare mitigation: ", mitigation);
    let page_error: Option<String> = match body {
        Some(page) => extract_response_error(page),
        None => None,
    };
    append_optional(&mut message, "; response error: ", str_of(&page_error));
    message
}

fn str_of(value: &Option<String>) -> (r: Option<&str>)
    ensures
        opt_str(r) == headers::opt_text(*value),
{
    match value {
        Some(text) => Some(text.as_str()),
        None => None,
    }
}

/// The report on a response that cannot be used. `body` is the page that came with it, if it
/// could be read as text. The report on a client error tells so.
pub fn describe_status(head: &ResponseHead, body: Option<&str>, context: &str) -> (r: String)
    requires
        head.wf(),
    ensures
        r@ == head_description(*head, opt_str(body), context@),
        400 <= head.status <= 499 ==> text::contains_text(r@, "returned 4"@),
{
    let server = headers::header_string(&head.server);
    let mitigation = headers::header_string(&head.cf_mitigated);
    let shown = status_text(head.status);
    let message = describe_response(context, &shown, str_of(&server), str_of(&mitigation), body);
    proof {
        if 400 <= head.status <= 499 {
            let before = context@ + " returned "@ + shown@;
            assert(before.is_prefix_of(message@));
            lemma_client_error_shows(context@, shown@, message@, head.status as nat);
        }
    }
    message
}

/// A report that goes on from the context with a client error has "returned 4" in it.
proof fn lemma_client_error_shows(
    context: Seq<char>,
    shown: Seq<char>,
    message: Seq<char>,
    status: nat,
)
    requires
        400 <= status <= 499,
        (text::decimal(status) + " "@).is_prefix_of(shown),
        (context + " returned "@ + shown).is_prefix_of(message),
    ensures
        text::contains_text(message, "returned 4"@),
{
    reveal_strlit(" returned ");
    reveal_strlit("returned 4");
    reveal_strlit(" ");
    reveal_with_fuel(text::decimal, 3);
    let digits = text::decimal(status);
    assert(digits[0] == '4');
    assert(shown[0] == (digits + " "@)[0]);
    let front = context + " returned "@ + shown;
    let at: int = context.len() as int + 1;
    assert(message.subrange(at, at + 10) =~= "returned 4"@) by {
        assert forall|i: int| 0 <= i < 10 implies message[at + i] == "returned 4"@[i] by {
            assert(message[at + i] == front[at + i]);
        }
    }
    assert(text::occurs_at(message, "returned 4"@, at));
}

/// The error that an unwanted response stands for. Of the client errors, those that are an
/// unusable response are worth another try only if the report tells of a 408 or a 429.
pub fn rejected(head: &ResponseHead, body: Option<&str>, context: &str) -> (r: DlError)
    requires
        head.wf(),
    ensures
        r@ == rejection(*head, opt_str(body), context@),
        400 <= head.status <= 499 && r is InvalidResponse ==> (error::retryable(r@) <==> {
            let message = head_description(*head, opt_str(body), context@);
            ||| text::contains_text(message, "returned 408"@)
            ||| text::contains_text(message, "returned 429"@)
        }),
{
    let message = describe_status(head, body, context);
    if head.status == 429 {
        let retry_after = headers::header_u64(&head.retry_after);
        DlError::RateLimited { message, retry_after }
    } else if (500 <= head.status && head.status <= 599) || head.status == 408 {
        DlError::ServerError(message)
    } else {
        DlError::InvalidResponse(message)
    }
}

/// A rate limit, a request timeout and a failure of the server are always worth another try.
pub proof fn law_server_trouble_is_retryable(
    head: ResponseHead,
    body: Option<Seq<char>>,
    context: Seq<char>,
)
    requires
        head.status == 429 || head.status == 408 || headers::is_server_error(head.status),
    ensures
        error::retryable(rejection(head, body, context)),
{
}

/// The message of an error that an unwanted response stands for.
pub open spec fn rejection_message(error: DlErrorView) -> Seq<char> {
    match error {
        DlErrorView::RateLimited { message, retry_after } => message,
        DlErrorView::ServerError(message) => message,
        DlErrorView::InvalidResponse(message) => message,
        _ => Seq::empty(),
    }
}

/// Every unwanted status is one error: 429 a rate limit, 408 and 500 to 599 a failure of the
/// server, any other an unusable response; and its message tells the context and the status.
pub proof fn law_unwanted_statuses_are_told_apart(
    head: ResponseHead,
    body: Option<Seq<char>>,
    context: Seq<char>,
)
    ensures
        ({
            let error = rejection(head, body, context);
            let told = context + " returned "@ + status_display(head.status);
            &&& error is RateLimited <==> head.status == 429
            &&& error is ServerError <==> head.status == 408 || head.status as int / 100 == 5
            &&& error is InvalidResponse <==> head.status != 429 && head.status != 408
                && head.status as int / 100 != 5
            &&& told.is_prefix_of(rejection_message(error))
        }),
{
    let told = context + " returned "@ + status_display(head.status);
    let message = head_description(head, body, context);
    assert(told.is_prefix_of(message)) by {
        assert(message.take(told.len() as int) =~= told);
    }
}

/// A rate limit hands on the wait that the server asked for, whatever it is, and none if it asked
/// for none.
pub proof fn law_rate_limit_hands_on_its_wait(
    head: ResponseHead,
    body: Option<Seq<char>>,
    context: Seq<char>,
    seconds: u64,
)
    requires
        head.status == 429,
    ensures
        ({
            let error = rejection(head, body, context);
            &&& error is RateLimited
            &&& head.retry_after is Some && headers::spells(
                head.retry_after->Some_0@,
                text::decimal(seconds as nat),
            ) ==> error->retry_after == Some(seconds)
            &&& head.retry_after is None ==> error->retry_after is None
        }),
{
    if head.retry_after is Some && headers::spells(
        head.retry_after->Some_0@,
        text::decimal(seconds as nat),
    ) {
        headers::law_printed_header_number_reads_back(head.retry_after->Some_0, seconds);
    }
}

/// A report is the context and the status, and what else is known is told behind them: the server,
/// then the mitigation, then the error that the page tells of.
pub proof fn law_report_tells_what_is_known(
    context: Seq<char>,
    shown: Seq<char>,
    server: Seq<char>,
    mitigation: Option<Seq<char>>,
    body: Option<Seq<char>>,
    page: Seq<char>,
)
    ensures
        description(context, shown, None, None, None) == context + " returned "@ + shown,
        description(context, shown, Some(server), mitigation, body) == description(
            context,
            shown + " (server: "@ + server + ")"@,
            None,
            mitigation,
            body,
        ),
        mitigation is Some ==> description(context, shown, None, mitigation, body) == description(
            context,
            shown + "; Cloudflare mitigation: "@ + mitigation->Some_0,
            None,
            None,
            body,
        ),
        response_error(page) is Some ==> description(context, shown, None, None, Some(page))
            == context + " returned "@ + shown + "; response error: "@
            + response_error(page)->Some_0,
        response_error(page) is None ==> description(context, shown, None, None, Some(page))
            == context + " returned "@ + shown,
{
    let front = context + " returned "@;
    assert(description(context, shown, None, None, None) =~= front + shown);
    assert(description(context, shown, Some(server), mitigation, body) =~= description(
        context,
        shown + " (server: "@ + server + ")"@,
        None,
        mitigation,
        body,
    ));
    if mitigation is Some {
        assert(description(context, shown, None, mitigation, body) =~= description(
            context,
            shown + "; Cloudflare mitigation: "@ + mitigation->Some_0,
            None,
            None,
            body,
        ));
    }
    if response_error(page) is Some {
        assert(description(context, shown, None, None, Some(page)) =~= front + shown
            + "; response error: "@ + response_error(page)->Some_0);
    } else {
        assert(description(context, shown, None, None, Some(page)) =~= front + shown);
    }
}

/// The content of an element is what stands between its first opening tag and the closing tag that
/// follows, without the white space around it.
pub proof fn law_tag_content_is_between_the_tags(
    before: Seq<char>,
    tag: Seq<char>,
    content: Seq<char>,
    after: Seq<char>,
)
    requires
        ({
            let open_tag = "<"@ + tag + ">"@;
            let close_tag = "</"@ + tag + ">"@;
            let body = before + open_tag + content + close_tag + after;
            let start = before.len() + open_tag.len();
            &&& forall|at: int|
                0 <= at < before.len() ==> #[trigger] body.subrange(at, at + open_tag.len())
                    != open_tag
            &&& forall|at: int|
                start <= at < start + content.len() ==> #[trigger] body.subrange(
                    at,
                    at + close_tag.len(),
                ) != close_tag
        }),
    ensures
        tag_content(
            before + ("<"@ + tag + ">"@) + content + ("</"@ + tag + ">"@) + after,
            tag,
        ) == Some(text::trimmed(content)),
{
    let open_tag = "<"@ + tag + ">"@;
    let close_tag = "</"@ + tag + ">"@;
    let body = before + open_tag + content + close_tag + after;
    let at = before.len() as int;
    let start = at + open_tag.len();
    let end = start + content.len();
    assert(body.subrange(at, start) =~= open_tag);
    assert(body.subrange(end, end + close_tag.len()) =~= close_tag);
    assert(body.subrange(start, end) =~= content);
    text::law_search_finds_the_first_place(body, open_tag, 0);
    text::law_search_finds_the_first_place(body, close_tag, start);
    let found = text::position(body, open_tag, 0);
    assert(found == Some(at)) by {
        assert(body.subrange(at, at + open_tag.len()) == open_tag);
        if found is Some && found->Some_0 < at {
            assert(body.subrange(found->Some_0, found->Some_0 + open_tag.len()) == open_tag);
        }
    }
    let closed = text::position(body, close_tag, start);
    assert(closed == Some(end)) by {
        assert(body.subrange(end, end + close_tag.len()) == close_tag);
        if closed is Some && closed->Some_0 < end {
            assert(body.subrange(closed->Some_0, closed->Some_0 + close_tag.len()) == close_tag);
        }
    }
}

/// A page tells of an error exactly if it has a code; the error begins with it and has every other
/// part that the page has.
pub proof fn law_page_error_has_its_parts(body: Seq<char>)
    ensures
        response_error(body) is Some <==> tag_content(body, "Code"@) is Some,
        response_error(body) is Some ==> {
            let error = response_error(body)->Some_0;
            &&& tag_content(body, "Code"@)->Some_0.is_prefix_of(error)
            &&& tag_content(body, "Message"@) is Some ==> text::contains_text(
                error,
                ": "@ + tag_content(body, "Message"@)->Some_0,
            )
            &&& tag_content(body, "CanonicalRequest"@) is Some ==> text::contains_text(
                error,
                tag_content(body, "CanonicalRequest"@)->Some_0,
            )
            &&& tag_content(body, "StringToSign"@) is Some
                ==> tag_content(body, "StringToSign"@)->Some_0.is_suffix_of(error)
        },
{
    if response_error(body) is Some {
        let error = response_error(body)->Some_0;
        let code = tag_content(body, "Code"@)->Some_0;
        let message = optional_part(": "@, tag_content(body, "Message"@));
        let lead = "\nCanonicalRequest calculated by S3:\n"@;
        let canonical = optional_part(lead, tag_content(body, "CanonicalRequest"@));
        let sign = optional_part(
            "\nStringToSign calculated by S3:\n"@,
            tag_content(body, "StringToSign"@),
        );
        assert(error.take(code.len() as int) =~= code);
        text::law_containing_is_standing_somewhere(code, message, canonical + sign, error);
        assert(code + message + (canonical + sign) =~= error);
        if tag_content(body, "CanonicalRequest"@) is Some {
            let request = tag_content(body, "CanonicalRequest"@)->Some_0;
            text::law_containing_is_standing_somewhere(code + message + lead, request, sign, error);
            assert(code + message + lead + request + sign =~= error);
        }
        if tag_content(body, "StringToSign"@) is Some {
            let string = tag_content(body, "StringToSign"@)->Some_0;
            assert(error.subrange(error.len() - string.len(), error.len() as int) =~= string);
        }
    }
}

/// The report on a response names the server and the mitigation that its header fields tell of,
/// each by its own field.
pub proof fn law_report_names_the_server(
    head: ResponseHead,
    context: Seq<char>,
    server: Seq<char>,
    mitigation: Seq<char>,
)
    requires
        head.server is Some,
        headers::spells(head.server->Some_0@, server),
        forall|i: int| 0 <= i < server.len() ==> ' ' <= #[trigger] server[i] <= '~',
        head.cf_mitigated is Some,
        headers::spells(head.cf_mitigated->Some_0@, mitigation),
        forall|i: int| 0 <= i < mitigation.len() ==> ' ' <= #[trigger] mitigation[i] <= '~',
    ensures
        head_description(head, None, context) == context + " returned "@ + status_display(
            head.status,
        ) + " (server: "@ + server + ")"@ + "; Cloudflare mitigation: "@ + mitigation,
{
    headers::law_printed_values_are_their_text(head.server->Some_0, server);
    headers::law_printed_values_are_their_text(head.cf_mitigated->Some_0, mitigation);
    let told = head_description(head, None, context);
    assert(told =~= context + " returned "@ + status_display(head.status) + " (server: "@ + server
        + ")"@ + "; Cloudflare mitigation: "@ + mitigation);
}

/// The report on a response without these header fields and without a page is its status.
pub proof fn law_plain_report_is_the_status(head: ResponseHead, context: Seq<char>)
    requires
        head.server is None,
        head.cf_mitigated is None,
    ensures
        head_description(head, None, context) == context + " returned "@ + status_display(
            head.status,
        ),
{
    assert(head_description(head, None, context) =~= context + " returned "@ + status_display(
        head.status,
    ));
}

/// An error that a page tells of stands at the end of the report on its response, whatever the
/// status is.
pub proof fn law_page_error_ends_the_report(
    head: ResponseHead,
    page: Seq<char>,
    context: Seq<char>,
)
    requires
        response_error(page) is Some,
    ensures
        ("; response error: "@ + response_error(page)->Some_0).is_suffix_of(
            rejection_message(rejection(head, Some(page), context)),
        ),
        rejection_message(rejection(head, Some(page), context)) == rejection_message(
            rejection(head, None, context),
        ) + "; response error: "@ + response_error(page)->Some_0,
{
    let told = rejection_message(rejection(head, Some(page), context));
    let plain = rejection_message(rejection(head, None, context));
    let end = "; response error: "@ + response_error(page)->Some_0;
    assert(told =~= plain + end);
    assert(told =~= plain + "; response error: "@ + response_error(page)->Some_0);
    assert(told.skip(told.len() - end.len()) =~= end);
}

} // verus!
