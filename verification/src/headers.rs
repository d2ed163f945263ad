//! What the headers of a response say.
use crate::text;
use crate::text::NumberFault;
use vstd::prelude::*;
use vstd::string::*;

verus! {

/// The parts of a response that decisions rest on: its status, and the raw values of the headers
/// that are read.
#[derive(Debug)]
pub struct ResponseHead {
    pub status: u16,
    pub content_length: Option<Vec<u8>>,
    pub content_range: Option<Vec<u8>>,
    pub accept_ranges: Option<Vec<u8>>,
    pub etag: Option<Vec<u8>>,
    pub last_modified: Option<Vec<u8>>,
    pub retry_after: Option<Vec<u8>>,
    pub server: Option<Vec<u8>>,
    pub cf_mitigated: Option<Vec<u8>>,
}

impl ResponseHead {
    /// A status has three digits.
    pub open spec fn wf(self) -> bool {
        100 <= self.status <= 999
    }
}

pub open spec fn is_success(status: u16) -> bool {
    200 <= status <= 299
}

pub open spec fn is_server_error(status: u16) -> bool {
    500 <= status <= 599
}

/// A byte that a header value may have and that can be read as a character: a tab, or visible
/// ASCII with the space.
pub open spec fn is_visible(b: u8) -> bool {
    b == 9 || 32 <= b < 127
}

/// The text of a header value, if it has one.
pub open spec fn value_text(bytes: Seq<u8>) -> Option<Seq<char>> {
    if forall|i: int| 0 <= i < bytes.len() ==> is_visible(#[trigger] bytes[i]) {
        Some(bytes.map_values(|b: u8| b as char))
    } else {
        None
    }
}

/// The text of a header, if the response has the header and its value has a text.
pub open spec fn header_text(value: Option<Vec<u8>>) -> Option<Seq<char>> {
    match value {
        Some(bytes) => value_text(bytes@),
        None => None,
    }
}

/// The number that a header holds, if it holds one.
pub open spec fn header_number(value: Option<Vec<u8>>) -> Option<nat> {
    match header_text(value) {
        Some(text) => match text::number_value(text) {
            Ok(n) => Some(n),
            Err(_) => None,
        },
        None => None,
    }
}

/// The size of the whole file, from the end of a `Content-Range` value; a star stands for an
/// unknown size.
pub open spec fn range_total(text: Seq<char>) -> Option<nat> {
    match text::after_last(text, '/') {
        Some(total) => match text::number_value(total) {
            Ok(n) => Some(n),
            Err(_) => None,
        },
        None => None,
    }
}

pub open spec fn header_range_total(value: Option<Vec<u8>>) -> Option<nat> {
    match header_text(value) {
        Some(text) => range_total(text),
        None => None,
    }
}

/// Whether an `Accept-Ranges` header offers byte ranges.
pub open spec fn offers_ranges(value: Option<Vec<u8>>) -> bool {
    match header_text(value) {
        Some(text) => text::contains_text(text::ascii_lowered(text), "bytes"@),
        None => false,
    }
}

pub open spec fn opt_text(value: Option<String>) -> Option<Seq<char>> {
    match value {
        Some(text) => Some(text@),
        None => None,
    }
}

pub open spec fn same_number(value: Option<u64>, model: Option<nat>) -> bool {
    match model {
        Some(n) => value == Some(n as u64) && n <= u64::MAX,
        None => value is None,
    }
}

/// Calls `HeaderValue::from_bytes` and `HeaderValue::to_str`, of the http crate by way of
/// reqwest. The second yields the text of a value that consists of visible ASCII, spaces and
/// tabs, byte for byte, and nothing for any other value; the first refuses only values that the
/// second would refuse.
#[verifier::external_body]
fn header_value_text(bytes: &Vec<u8>) -> (r: Option<String>)
    ensures
        opt_text(r) == value_text(bytes@),
{
    let value = reqwest::header::HeaderValue::from_bytes(bytes).ok()?;
    value.to_str().ok().map(|text| text.to_string())
}

/// The text of a header.
pub fn header_string(value: &Option<Vec<u8>>) -> (r: Option<String>)
    ensures
        opt_text(r) == header_text(*value),
{
    match value {
        Some(bytes) => header_value_text(bytes),
        None => None,
    }
}

/// The number in a header.
pub fn header_u64(value: &Option<Vec<u8>>) -> (r: Option<u64>)
    ensures
        same_number(
            r,
            header_number(*value),
        ),
{
    match header_string(value) {
        Some(text) => parse_u64(&text),
        None => None,
    }
}

/// The number that a text stands for.
fn parse_u64(text: &str) -> (r: Option<u64>)
    ensures
        same_number(
            r,
            match text::number_value(text@) {
                Ok(n) => Some(n),
                Err(_) => None,
            },
        ),
{
    let chars = text::chars_of(text);
    proof {
        assert(chars@.subrange(0, chars@.len() as int) =~= chars@);
    }
    match text::parse_number(&chars, 0, chars.len()) {
        Ok(n) => Some(n),
        Err(_) => None,
    }
}

/// The size of the whole file in a `Content-Range` header.
pub fn parse_content_range_total(value: &Option<Vec<u8>>) -> (r: Option<u64>)
    ensures
        same_number(
            r,
            header_range_total(*value),
        ),
{
    match header_string(value) {
        Some(text) => {
            let chars = text::chars_of(&text);
            match text::find_after_last(&chars, '/') {
                Some(start) => match text::parse_number(&chars, start, chars.len()) {
                    Ok(n) => Some(n),
                    Err(_) => None,
                },
                None => None,
            }
        },
        None => None,
    }
}

/// Whether an `Accept-Ranges` header offers byte ranges.
pub fn accepts_ranges(value: &Option<Vec<u8>>) -> (r: bool)
    ensures
        r == offers_ranges(*value),
{
    match header_string(value) {
        Some(text) => {
            let lowered = text::lowered_chars(&text::chars_of(&text));
            let wanted = text::chars_of("bytes");
            match text::find_from(&lowered, &wanted, 0) {
                Some(at) => {
                    proof {
                        assert(text::occurs_at(lowered@, wanted@, at as int));
                    }
                    true
                },
                None => false,
            }
        },
        None => false,
    }
}

/// A `Content-Range` whose size is a star tells no size.
pub proof fn law_star_is_no_size(text: Seq<char>)
    requires
        text::after_last(text, '/') == Some(seq!['*']),
    ensures
        range_total(text) is None,
{
    let star = seq!['*'];
    assert(star.drop_last().len() == 0);
    assert(text::digits_value(star.drop_last()) == Ok::<nat, NumberFault>(0));
}

/// The bytes are the codes of the characters of a text.
pub open spec fn spells(bytes: Seq<u8>, text: Seq<char>) -> bool {
    &&& bytes.len() == text.len()
    &&& forall|i: int|
        #![trigger bytes[i]]
        #![trigger text[i]]
        0 <= i < text.len() ==> bytes[i] as int == text[i] as int
}

/// A value of printed ASCII and tabs is its text, character by character; any other byte leaves it
/// without one, and so does a header that is not there.
pub proof fn law_printed_values_are_their_text(value: Vec<u8>, text: Seq<char>)
    requires
        spells(value@, text),
    ensures
        (forall|i: int| 0 <= i < text.len() ==> #[trigger] text[i] == '\t' || ' ' <= text[i] <= '~')
            ==> header_text(Some(value)) == Some(text),
        (exists|i: int|
            0 <= i < text.len() && !(#[trigger] text[i] == '\t' || ' ' <= text[i] <= '~'))
            ==> header_text(Some(value)) is None,
        header_text(None) is None,
{
    assert forall|i: int| 0 <= i < text.len() implies value@[i] as char == text[i] && (is_visible(
        value@[i],
    ) <==> (#[trigger] text[i] == '\t' || ' ' <= text[i] <= '~')) by {}
    if forall|i: int| 0 <= i < text.len() ==> #[trigger] text[i] == '\t' || ' ' <= text[i] <= '~' {
        assert forall|i: int| 0 <= i < value@.len() implies is_visible(#[trigger] value@[i]) by {
            assert(text[i] == '\t' || ' ' <= text[i] <= '~');
        }
        assert(value@.map_values(|b: u8| b as char) =~= text);
    } else {
        let i = choose|i: int|
            0 <= i < text.len() && !(#[trigger] text[i] == '\t' || ' ' <= text[i] <= '~');
        assert(!is_visible(value@[i]));
    }
}

/// A header that holds a printed number is read as that number, whatever its size.
pub proof fn law_printed_header_number_reads_back(value: Vec<u8>, n: u64)
    requires
        spells(value@, text::decimal(n as nat)),
    ensures
        header_number(Some(value)) == Some(n as nat),
        header_number(None) is None,
{
    text::law_printed_number_is_written_in_digits(n as nat);
    text::law_printed_number_reads_back(n);
    law_printed_values_are_their_text(value, text::decimal(n as nat));
}

/// A `Content-Range` that ends in a slash and a printed number tells that number as the size,
/// whatever its size.
pub proof fn law_content_range_tells_its_size(value: Vec<u8>, lead: Seq<char>, n: u64)
    requires
        spells(value@, lead.push('/') + text::decimal(n as nat)),
        forall|i: int| 0 <= i < lead.len() ==> ' ' <= #[trigger] lead[i] <= '~',
    ensures
        header_range_total(Some(value)) == Some(n as nat),
        header_range_total(None) is None,
{
    let digits = text::decimal(n as nat);
    let text = lead.push('/') + digits;
    text::law_printed_number_is_written_in_digits(n as nat);
    text::law_printed_number_reads_back(n);
    assert forall|i: int| 0 <= i < text.len() implies ' ' <= #[trigger] text[i] <= '~' by {
        if i < lead.len() {
            assert(text[i] == lead[i]);
        } else if i > lead.len() {
            assert(text[i] == digits[i - lead.len() - 1]);
        }
    }
    law_printed_values_are_their_text(value, text);
    assert(!digits.contains('/'));
    text::law_last_part_is_after_the_last_mark(lead, digits, '/');
}

/// A header offers ranges that has the word `bytes` in it, in letters of either size, and one
/// without the letters of it does not.
pub proof fn law_bytes_are_an_offer(
    value: Vec<u8>,
    before: Seq<char>,
    word: Seq<char>,
    after: Seq<char>,
)
    requires
        spells(value@, before + word + after),
        forall|i: int|
            0 <= i < (before + word + after).len() ==> ' ' <= #[trigger] (before + word + after)[i]
                <= '~',
    ensures
        word.len() == 5 && (word[0] == 'b' || word[0] == 'B') && (word[1] == 'y' || word[1] == 'Y')
            && (word[2] == 't' || word[2] == 'T') && (word[3] == 'e' || word[3] == 'E') && (word[4]
            == 's' || word[4] == 'S') ==> offers_ranges(Some(value)),
        (forall|i: int|
            0 <= i < (before + word + after).len() ==> #[trigger] (before + word + after)[i] != 'b'
                && (before + word + after)[i] != 'B') ==> !offers_ranges(Some(value)),
        !offers_ranges(None),
{
    reveal_strlit("bytes");
    let text = before + word + after;
    law_printed_values_are_their_text(value, text);
    let lowered = text::ascii_lowered(text);
    if word.len() == 5 && (word[0] == 'b' || word[0] == 'B') && (word[1] == 'y' || word[1] == 'Y')
        && (word[2] == 't' || word[2] == 'T') && (word[3] == 'e' || word[3] == 'E') && (word[4]
        == 's' || word[4] == 'S') {
        let at = before.len() as int;
        assert(lowered.subrange(at, at + 5) =~= "bytes"@) by {
            assert(text[at] == word[0] && text[at + 1] == word[1] && text[at + 2] == word[2]
                && text[at + 3] == word[3] && text[at + 4] == word[4]);
        }
        assert(text::occurs_at(lowered, "bytes"@, at));
    }
    if (forall|i: int| 0 <= i < text.len() ==> #[trigger] text[i] != 'b' && text[i] != 'B')
        && offers_ranges(Some(value)) {
        let at = choose|at: int| #[trigger] text::occurs_at(lowered, "bytes"@, at);
        assert(lowered.subrange(at, at + 5)[0] == 'b');
        assert(lowered[at] == text::ascii_lower(text[at]));
    }
}

/// A number that is handed on is the number that was read, and there is one exactly if one was
/// read.
pub proof fn law_numbers_are_handed_on(value: Option<u64>, model: Option<nat>)
    requires
        same_number(value, model),
    ensures
        value is Some <==> model is Some,
        value is Some ==> value->Some_0 == model->Some_0,
{
}

/// Success is 200 to 299, and a failure of the server is 500 to 599.
pub proof fn law_status_classes(status: u16)
    ensures
        is_success(status) <==> status as int / 100 == 2,
        is_server_error(status) <==> status as int / 100 == 5,
{
}

/// A value with a byte that is not printed, other than a tab, has no text, and tells nothing.
pub proof fn law_unprinted_values_tell_nothing(value: Vec<u8>, i: int)
    requires
        0 <= i < value@.len(),
        value@[i] < 32 || value@[i] >= 127,
        value@[i] != 9,
    ensures
        header_text(Some(value)) is None,
        header_number(Some(value)) is None,
        header_range_total(Some(value)) is None,
        !offers_ranges(Some(value)),
{
    assert(!is_visible(value@[i]));
}

} // verus!
