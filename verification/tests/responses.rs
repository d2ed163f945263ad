use libdl::chunks::Segment;
use libdl::error::{is_error_retryable, DlError};
use libdl::headers::{
    accepts_ranges, header_string, header_u64, parse_content_range_total, ResponseHead,
};
use libdl::probe::{probe_range, probe_server, HttpProbe, ProbeStage, ProbeStep};
use libdl::response::{
    describe_response, describe_status, extract_response_error, rejected, xml_tag,
};
use libdl::stream::{is_partial_content, range_header, send_range_request};

fn value(text: &str) -> Option<Vec<u8>> {
    Some(text.as_bytes().to_vec())
}

fn head(status: u16) -> ResponseHead {
    ResponseHead {
        status,
        content_length: None,
        content_range: None,
        accept_ranges: None,
        etag: None,
        last_modified: None,
        retry_after: None,
        server: None,
        cf_mitigated: None,
    }
}

#[test]
fn header_texts() {
    assert_eq!(header_string(&None), None);
    assert_eq!(header_string(&value("\"test\"")), Some("\"test\"".to_string()));
    assert_eq!(header_string(&value("")), Some(String::new()));
    assert_eq!(header_string(&value("a\tb ~")), Some("a\tb ~".to_string()));
    for byte in 0..=255_u8 {
        let text = header_string(&Some(vec![b'a', byte]));
        if byte == 9 || (32..127).contains(&byte) {
            assert_eq!(text, Some(format!("a{}", byte as char)));
        } else {
            assert_eq!(text, None);
        }
    }
}

#[test]
fn header_numbers() {
    assert_eq!(header_u64(&value("131072")), Some(131072));
    assert_eq!(header_u64(&value("+5")), Some(5));
    assert_eq!(header_u64(&value(" 5")), None);
    assert_eq!(header_u64(&value("-5")), None);
    assert_eq!(header_u64(&value("")), None);
    assert_eq!(header_u64(&value("18446744073709551616")), None);
    assert_eq!(header_u64(&Some(vec![0xff])), None);
    assert_eq!(header_u64(&None), None);
}

#[test]
fn content_range_totals() {
    assert_eq!(parse_content_range_total(&value("bytes 0-0/131072")), Some(131072));
    assert_eq!(parse_content_range_total(&value("bytes 0-0/*")), None);
    assert_eq!(parse_content_range_total(&value("bytes 0-0/")), None);
    assert_eq!(parse_content_range_total(&value("bytes 0-0")), None);
    assert_eq!(parse_content_range_total(&value("a/b/12")), Some(12));
    assert_eq!(parse_content_range_total(&value("a/12/b")), None);
    assert_eq!(parse_content_range_total(&None), None);
}

#[test]
fn range_offers() {
    assert!(accepts_ranges(&value("bytes")));
    assert!(accepts_ranges(&value("none, BYTES")));
    assert!(!accepts_ranges(&value("none")));
    assert!(!accepts_ranges(&None));
}

#[test]
fn elements_of_an_error_page() {
    assert_eq!(xml_tag("<a><Code> X \n</Code></a>", "Code"), Some("X"));
    assert_eq!(xml_tag("<Code>one</Code><Code>two</Code>", "Code"), Some("one"));
    assert_eq!(xml_tag("</Code><Code>late</Code>", "Code"), Some("late"));
    assert_eq!(xml_tag("<Code>open", "Code"), None);
    assert_eq!(xml_tag("close</Code>", "Code"), None);
    assert_eq!(xml_tag("<Code></Code>", "Code"), Some(""));
    assert_eq!(xml_tag("\u{e4}<Code>\u{3000}\u{f6}</Code>", "Code"), Some("\u{f6}"));
}

#[test]
fn error_pages() {
    assert_eq!(extract_response_error("<Message>alone</Message>"), None);
    assert_eq!(extract_response_error("<Code>Denied</Code>"), Some("Denied".to_string()));
    assert_eq!(
        extract_response_error("<Code>Denied</Code><Message>No.</Message>"),
        Some("Denied: No.".to_string())
    );
    assert_eq!(
        extract_response_error(
            "<StringToSign>s</StringToSign><CanonicalRequest>c</CanonicalRequest><Code>D</Code>"
        ),
        Some(
            "D\nCanonicalRequest calculated by S3:\nc\nStringToSign calculated by S3:\ns"
                .to_string()
        )
    );
}

#[test]
fn reports_on_responses() {
    assert_eq!(describe_response("GET", "404 Not Found", None, None, None), "GET returned 404 Not Found");
    assert_eq!(
        describe_response("GET", "403 Forbidden", Some("nginx"), Some("challenge"), Some("<Code>X</Code>")),
        "GET returned 403 Forbidden (server: nginx); Cloudflare mitigation: challenge; response error: X"
    );
    assert_eq!(
        describe_response("GET", "403 Forbidden", None, None, Some("plain page")),
        "GET returned 403 Forbidden"
    );
}

#[test]
fn statuses_are_shown_with_their_reason() {
    let mut response = head(404);
    response.server = value("cloudflare");
    response.cf_mitigated = Some(vec![0x80]);
    assert_eq!(
        describe_status(&response, Some("<Code>NoSuchKey</Code>"), "GET"),
        "GET returned 404 Not Found (server: cloudflare); response error: NoSuchKey"
    );
    assert_eq!(describe_status(&head(429), None, "GET"), "GET returned 429 Too Many Requests");
    assert_eq!(describe_status(&head(999), None, "GET"), "GET returned 999 <unknown status code>");
    assert_eq!(describe_status(&head(100), None, "GET"), "GET returned 100 Continue");
}

#[test]
fn rejected_responses() {
    let mut limited = head(429);
    limited.retry_after = value("7");
    assert_eq!(
        rejected(&limited, None, "GET"),
        DlError::RateLimited {
            message: "GET returned 429 Too Many Requests".to_string(),
            retry_after: Some(7),
        }
    );
    limited.retry_after = value("Wed, 21 Oct 2015 07:28:00 GMT");
    assert_eq!(
        rejected(&limited, None, "GET"),
        DlError::RateLimited {
            message: "GET returned 429 Too Many Requests".to_string(),
            retry_after: None,
        }
    );
    assert_eq!(
        rejected(&head(503), None, "GET"),
        DlError::ServerError("GET returned 503 Service Unavailable".to_string())
    );
    assert_eq!(
        rejected(&head(408), None, "GET"),
        DlError::ServerError("GET returned 408 Request Timeout".to_string())
    );
    assert_eq!(
        rejected(&head(404), None, "GET"),
        DlError::InvalidResponse("GET returned 404 Not Found".to_string())
    );
    assert_eq!(
        rejected(&head(304), None, "GET"),
        DlError::InvalidResponse("GET returned 304 Not Modified".to_string())
    );
}

#[test]
fn client_errors_are_final() {
    for status in 100..=999 {
        let retryable = is_error_retryable(&rejected(&head(status), None, "GET"));
        let client_error = (400..=499).contains(&status);
        assert_eq!(retryable, !client_error || status == 408 || status == 429, "{status}");
    }
}

#[test]
fn errors_worth_another_try() {
    let limited = DlError::RateLimited { message: String::new(), retry_after: None };
    assert!(is_error_retryable(&limited));
    assert!(is_error_retryable(&DlError::ServerError(String::new())));
    assert!(is_error_retryable(&DlError::Http("reset".to_string())));
    assert!(is_error_retryable(&DlError::InvalidResponse("segment 3 wrote 1 bytes".to_string())));
    assert!(is_error_retryable(&DlError::InvalidResponse("x returned 408".to_string())));
    assert!(is_error_retryable(&DlError::InvalidResponse("x returned 429".to_string())));
    assert!(!is_error_retryable(&DlError::InvalidResponse("x returned 416".to_string())));
    assert!(!is_error_retryable(&DlError::Io("full".to_string())));
    assert!(!is_error_retryable(&DlError::RangesUnsupported));
    assert!(!is_error_retryable(&DlError::InvalidState(String::new())));
    assert!(!is_error_retryable(&DlError::Serialization(String::new())));
    assert!(!is_error_retryable(&DlError::Torrent(String::new())));
    assert!(!is_error_retryable(&DlError::Join(String::new())));
}

#[test]
fn error_messages() {
    let text = || "x".to_string();
    let limited = DlError::RateLimited { message: text(), retry_after: Some(1) };
    assert_eq!(DlError::Io(text()).message(), "I/O error: x");
    assert_eq!(DlError::Http(text()).message(), "HTTP error: x");
    assert_eq!(DlError::InvalidResponse(text()).message(), "invalid HTTP response: x");
    assert_eq!(limited.message(), "rate limited: x");
    assert_eq!(DlError::ServerError(text()).message(), "server error: x");
    assert_eq!(
        DlError::RangesUnsupported.message(),
        "server does not support resumable range downloads"
    );
    assert_eq!(DlError::InvalidState(text()).message(), "download state is invalid: x");
    assert_eq!(DlError::Serialization(text()).message(), "serialization error: x");
    assert_eq!(DlError::Torrent(text()).message(), "torrent error: x");
    assert_eq!(DlError::Join(text()).message(), "worker task failed: x");
}

#[test]
fn segment_requests() {
    let segment = Segment { index: 3, start: 30, end: 39 };
    assert_eq!(range_header(&segment), "bytes=30-39");
    assert!(is_partial_content(&head(206)));
    assert!(!is_partial_content(&head(200)));
    assert_eq!(send_range_request(&segment, &head(206), None), Ok(()));
    assert_eq!(
        send_range_request(&segment, &head(200), None),
        Err(DlError::InvalidResponse("range request for segment 3 returned 200 OK".to_string()))
    );
    assert_eq!(
        send_range_request(&segment, &head(502), Some("<Code>Slow</Code>")),
        Err(DlError::ServerError(
            "range request for segment 3 returned 502 Bad Gateway; response error: Slow".to_string()
        ))
    );
}

#[test]
fn probe_finds_ranges() {
    let mut response = head(206);
    response.content_range = value("bytes 0-0/512");
    response.etag = value("\"test\"");
    response.last_modified = value("yesterday");
    assert_eq!(probe_range(ProbeStage::FirstByte), Some("bytes=0-0"));
    assert_eq!(
        probe_server(ProbeStage::FirstByte, Ok(response)),
        ProbeStep::Found(HttpProbe {
            total_size: Some(512),
            ranges_supported: true,
            etag: Some("\"test\"".to_string()),
            last_modified: Some("yesterday".to_string()),
        })
    );
}

#[test]
fn probe_of_a_server_without_ranges() {
    let mut response = head(200);
    response.content_length = value("512");
    response.accept_ranges = value("bytes");
    assert_eq!(
        probe_server(ProbeStage::FirstByte, Ok(response)),
        ProbeStep::Found(HttpProbe {
            total_size: Some(512),
            ranges_supported: false,
            etag: None,
            last_modified: None,
        })
    );
}

#[test]
fn probe_falls_back() {
    let refused = || DlError::Http("refused".to_string());
    assert_eq!(probe_range(ProbeStage::Head), None);
    assert_eq!(probe_range(ProbeStage::Get), None);
    assert_eq!(probe_server(ProbeStage::FirstByte, Err(refused())), ProbeStep::Failed(refused()));
    assert_eq!(probe_server(ProbeStage::FirstByte, Ok(head(416))), ProbeStep::Ask(ProbeStage::Head));
    assert_eq!(probe_server(ProbeStage::Head, Err(refused())), ProbeStep::Ask(ProbeStage::Get));
    assert_eq!(probe_server(ProbeStage::Head, Ok(head(405))), ProbeStep::Ask(ProbeStage::Get));
    assert_eq!(probe_server(ProbeStage::Get, Err(refused())), ProbeStep::Failed(refused()));
    assert_eq!(
        probe_server(ProbeStage::Get, Ok(head(404))),
        ProbeStep::Found(HttpProbe {
            total_size: None,
            ranges_supported: false,
            etag: None,
            last_modified: None,
        })
    );
    let mut response = head(204);
    response.content_length = value("9");
    response.accept_ranges = value("Bytes");
    assert_eq!(
        probe_server(ProbeStage::Head, Ok(response)),
        ProbeStep::Found(HttpProbe {
            total_size: Some(9),
            ranges_supported: true,
            etag: None,
            last_modified: None,
        })
    );
}
