//! What can go wrong in a download, and which of it is worth another try.
use crate::text;
use vstd::prelude::*;
use vstd::string::*;

verus! {

/// Every way in which a download fails. Failures of the network, the file system and the task
/// runner carry the text of their cause.
#[derive(Debug, PartialEq, Eq)]
pub enum DlError {
    Io(String),
    Http(String),
    InvalidResponse(String),
    /// `retry_after` is the wait that the server asks for, in seconds.
    RateLimited { message: String, retry_after: Option<u64> },
    ServerError(String),
    RangesUnsupported,
    InvalidState(String),
    Serialization(String),
    Torrent(String),
    Join(String),
}

/// A `DlError` with the characters of its texts.
pub enum DlErrorView {
    Io(Seq<char>),
    Http(Seq<char>),
    InvalidResponse(Seq<char>),
    RateLimited { message: Seq<char>, retry_after: Option<u64> },
    ServerError(Seq<char>),
    RangesUnsupported,
    InvalidState(Seq<char>),
    Serialization(Seq<char>),
    Torrent(Seq<char>),
    Join(Seq<char>),
}

impl View for DlError {
    type V = DlErrorView;

    open spec fn view(&self) -> DlErrorView {
        match *self {
            DlError::Io(cause) => DlErrorView::Io(cause@),
            DlError::Http(cause) => DlErrorView::Http(cause@),
            DlError::InvalidResponse(message) => DlErrorView::InvalidResponse(message@),
            DlError::RateLimited { message, retry_after } => DlErrorView::RateLimited {
                message: message@,
                retry_after,
            },
            DlError::ServerError(message) => DlErrorView::ServerError(message@),
            DlError::RangesUnsupported => DlErrorView::RangesUnsupported,
            DlError::InvalidState(message) => DlErrorView::InvalidState(message@),
            DlError::Serialization(cause) => DlErrorView::Serialization(cause@),
            DlError::Torrent(message) => DlErrorView::Torrent(message@),
            DlError::Join(cause) => DlErrorView::Join(cause@),
        }
    }
}

/// The text of an error for the user.
pub open spec fn error_text(error: DlErrorView) -> Seq<char> {
    match error {
        DlErrorView::Io(cause) => "I/O error: "@ + cause,
        DlErrorView::Http(cause) => "HTTP error: "@ + cause,
        DlErrorView::InvalidResponse(message) => "invalid HTTP response: "@ + message,
        DlErrorView::RateLimited { message, retry_after } => "rate limited: "@ + message,
        DlErrorView::ServerError(message) => "server error: "@ + message,
        DlErrorView::RangesUnsupported => "server does not support resumable range downloads"@,
        DlErrorView::InvalidState(message) => "download state is invalid: "@ + message,
        DlErrorView::Serialization(cause) => "serialization error: "@ + cause,
        DlErrorView::Torrent(message) => "torrent error: "@ + message,
        DlErrorView::Join(cause) => "worker task failed: "@ + cause,
    }
}

/// Rate limits, server and transport failures are worth another try, and so is an unusable
/// response, unless its message tells of a client error other than 408 and 429.
pub open spec fn retryable(error: DlErrorView) -> bool {
    match error {
        DlErrorView::RateLimited { message, retry_after } => true,
        DlErrorView::ServerError(message) => true,
        DlErrorView::Http(cause) => true,
        DlErrorView::InvalidResponse(message) => {
            ||| !text::contains_text(message, "returned 4"@)
            ||| text::contains_text(message, "returned 408"@)
            ||| text::contains_text(message, "returned 429"@)
        },
        _ => false,
    }
}

impl DlError {
    /// The text of the error for the user.
    pub fn message(&self) -> (r: String)
        ensures
            r@ == error_text(self@),
    {
        match self {
            DlError::Io(cause) => joined("I/O error: ", cause),
            DlError::Http(cause) => joined("HTTP error: ", cause),
            DlError::InvalidResponse(message) => joined("invalid HTTP response: ", message),
            DlError::RateLimited { message, .. } => joined("rate limited: ", message),
            DlError::ServerError(message) => joined("server error: ", message),
            DlError::RangesUnsupported => {
                "server does not support resumable range downloads".to_string()
            },
            DlError::InvalidState(message) => joined("download state is invalid: ", message),
            DlError::Serialization(cause) => joined("serialization error: ", cause),
            DlError::Torrent(message) => joined("torrent error: ", message),
            DlError::Join(cause) => joined("worker task failed: ", cause),
        }
    }
}

/// One text behind another.
pub(crate) fn joined(first: &str, second: &str) -> (r: String)
    ensures
        r@ == first@ + second@,
{
    let mut out: String = first.to_string();
    out.append(second);
    out
}

/// Whether the request that failed with `error` is worth another try.
pub fn is_error_retryable(error: &DlError) -> (r: bool)
    ensures
        r == retryable(error@),
{
    match error {
        DlError::RateLimited { .. } => true,
        DlError::ServerError(_) => true,
        DlError::Http(_) => true,
        DlError::InvalidResponse(message) => {
            if text::contains(message, "returned 4") {
                text::contains(message, "returned 408") || text::contains(message, "returned 429")
            } else {
                true
            }
        },
        _ => false,
    }
}

/// What the server or the transport may mend by itself is worth another try, and what only the
/// user can mend is not.
pub proof fn law_passing_failures_are_retryable(error: DlErrorView)
    ensures
        error is RateLimited || error is ServerError || error is Http ==> retryable(error),
        error is Io || error is RangesUnsupported || error is InvalidState || error is Serialization
            || error is Torrent || error is Join ==> !retryable(error),
{
}

/// An unusable response is final exactly if its message tells of a client error, and neither of a
/// 408 nor of a 429.
pub proof fn law_client_errors_are_final(before: Seq<char>, told: Seq<char>, after: Seq<char>)
    ensures
        told == "returned 408"@ || told == "returned 429"@ ==> retryable(
            DlErrorView::InvalidResponse(before + told + after),
        ),
        ({
            let message = before + told + after;
            let tells = |text: Seq<char>|
                exists|at: int|
                    0 <= at <= message.len() - text.len() && #[trigger] message.subrange(
                        at,
                        at + text.len(),
                    ) == text;
            &&& told == "returned 4"@ && !tells("returned 408"@) && !tells("returned 429"@)
                ==> !retryable(DlErrorView::InvalidResponse(message))
            &&& !tells("returned 4"@) ==> retryable(DlErrorView::InvalidResponse(message))
        }),
{
    let message = before + told + after;
    text::law_containing_is_standing_somewhere(before, told, after, message);
    text::law_containing_is_standing_somewhere(before, "returned 4"@, after, message);
    text::law_containing_is_standing_somewhere(before, "returned 408"@, after, message);
    text::law_containing_is_standing_somewhere(before, "returned 429"@, after, message);
}

/// The text of an error says what failed and ends in its cause, whatever that is.
pub proof fn law_error_text_ends_in_its_cause(cause: Seq<char>, retry_after: Option<u64>)
    ensures
        error_text(DlErrorView::Io(cause)) == "I/O error: "@ + cause,
        error_text(DlErrorView::Http(cause)) == "HTTP error: "@ + cause,
        error_text(DlErrorView::InvalidResponse(cause)) == "invalid HTTP response: "@ + cause,
        error_text(DlErrorView::RateLimited { message: cause, retry_after }) == "rate limited: "@
            + cause,
        error_text(DlErrorView::ServerError(cause)) == "server error: "@ + cause,
        error_text(DlErrorView::InvalidState(cause)) == "download state is invalid: "@ + cause,
        error_text(DlErrorView::Serialization(cause)) == "serialization error: "@ + cause,
        error_text(DlErrorView::Torrent(cause)) == "torrent error: "@ + cause,
        error_text(DlErrorView::Join(cause)) == "worker task failed: "@ + cause,
        error_text(DlErrorView::RangesUnsupported)
            == "server does not support resumable range downloads"@,
{
}

} // verus!
