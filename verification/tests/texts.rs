use libdl::text::{
    append_decimal, begins_with, chars_of, contains, find_after_last, find_from, finishes_with,
    is_white_space, lowered_chars, parse_number, trim_range, NumberFault,
};

fn number(s: &str) -> Result<u64, NumberFault> {
    let chars = chars_of(s);
    parse_number(&chars, 0, chars.len())
}

fn printed(n: u64) -> String {
    let mut out = String::new();
    append_decimal(&mut out, n);
    out
}

#[test]
fn numbers_are_read_as_the_standard_library_reads_them() {
    for s in [
        "", "0", "7", "007", "+1", "+", "-", "-1", "++1", "1+", " 1", "1 ", "12a", "a12",
        "18446744073709551615", "18446744073709551616", "99999999999999999999x",
        "99999999999999999999999", "1_000", "\u{0661}", "0x10", "1.5", "00000000000000000000001",
    ] {
        match (number(s), s.parse::<u64>()) {
            (Ok(ours), Ok(theirs)) => assert_eq!(ours, theirs, "{s}"),
            (Err(ours), Err(theirs)) => assert_eq!(ours.text(), theirs.to_string(), "{s}"),
            (ours, theirs) => panic!("{s}: {ours:?} against {theirs:?}"),
        }
    }
}

#[test]
fn printed_numbers_read_back() {
    for n in [0, 1, 9, 10, 11, 99, 100, 12345, u64::MAX / 10, u64::MAX - 1, u64::MAX] {
        assert_eq!(printed(n), n.to_string());
        assert_eq!(number(&printed(n)), Ok(n));
    }
}

#[test]
fn white_space_is_that_of_the_standard_library() {
    for code in 0..0x11_0000_u32 {
        if let Some(c) = char::from_u32(code) {
            assert_eq!(is_white_space(c), c.is_whitespace(), "{code:x}");
        }
    }
}

#[test]
fn trimming_is_that_of_the_standard_library() {
    for s in ["", " ", "a", "  a b\t", "\u{3000}x\u{a0}", "\n\r\n", "end\u{2029}"] {
        let chars = chars_of(s);
        let (from, to) = trim_range(&chars, 0, chars.len());
        let trimmed: String = chars[from..to].iter().collect();
        assert_eq!(trimmed, s.trim());
    }
}

#[test]
fn searching() {
    assert!(contains("it returned 404", "returned 4"));
    assert!(!contains("it returned 504", "returned 4"));
    assert!(contains("anything", ""));
    assert!(!contains("", "a"));
    assert!(begins_with("magnet:?xt", "magnet:"));
    assert!(!begins_with("mag", "magnet:"));
    assert!(finishes_with("a.torrent", ".torrent"));
    assert!(!finishes_with("torrent", ".torrent"));
    assert_eq!(find_from(&chars_of("abcabc"), &chars_of("bc"), 0), Some(1));
    assert_eq!(find_from(&chars_of("abcabc"), &chars_of("bc"), 2), Some(4));
    assert_eq!(find_from(&chars_of("abcabc"), &chars_of("bc"), 5), None);
    assert_eq!(find_from(&chars_of("abc"), &chars_of(""), 3), Some(3));
    assert_eq!(find_from(&chars_of("abc"), &chars_of(""), 4), None);
    assert_eq!(find_after_last(&chars_of("bytes 0-0/7"), '/'), Some(10));
    assert_eq!(find_after_last(&chars_of("a/b/"), '/'), Some(4));
    assert_eq!(find_after_last(&chars_of("none"), '/'), None);
}

#[test]
fn lowering_touches_ascii_capitals_only() {
    let lowered: String = lowered_chars(&chars_of("BYTES-\u{c9}z9")).iter().collect();
    assert_eq!(lowered, "BYTES-\u{c9}z9".to_ascii_lowercase());
}
