//! Characters and decimal numbers: the small vocabulary that the other modules read
//! headers, sizes and error pages with.
use vstd::prelude::*;
use vstd::string::*;

verus! {

/// The character of a decimal digit.
pub open spec fn digit_char(d: int) -> char {
    (48 + d) as char
}

/// A natural number in decimal, without leading zeros.
pub open spec fn decimal(n: nat) -> Seq<char>
    decreases n,
{
    if n < 10 {
        seq![digit_char(n as int)]
    } else {
        decimal(n / 10).push(digit_char((n % 10) as int))
    }
}

pub open spec fn is_digit(c: char) -> bool {
    '0' <= c <= '9'
}

/// The characters with the Unicode property `White_Space`.
pub open spec fn is_space(c: char) -> bool {
    let n = c as int;
    ||| 0x9 <= n <= 0xd
    ||| n == 0x20
    ||| n == 0x85
    ||| n == 0xa0
    ||| n == 0x1680
    ||| 0x2000 <= n <= 0x200a
    ||| n == 0x2028
    ||| n == 0x2029
    ||| n == 0x202f
    ||| n == 0x205f
    ||| n == 0x3000
}

pub open spec fn trimmed_start(s: Seq<char>) -> Seq<char>
    decreases s.len(),
{
    if s.len() > 0 && is_space(s[0]) {
        trimmed_start(s.drop_first())
    } else {
        s
    }
}

pub open spec fn trimmed_end(s: Seq<char>) -> Seq<char>
    decreases s.len(),
{
    if s.len() > 0 && is_space(s.last()) {
        trimmed_end(s.drop_last())
    } else {
        s
    }
}

/// A text without its leading and trailing white space.
pub open spec fn trimmed(s: Seq<char>) -> Seq<char> {
    trimmed_end(trimmed_start(s))
}

/// `pattern` stands in `s` at position `at`.
pub open spec fn occurs_at(s: Seq<char>, pattern: Seq<char>, at: int) -> bool {
    &&& 0 <= at
    &&& at + pattern.len() <= s.len()
    &&& s.subrange(at, at + pattern.len()) == pattern
}

pub open spec fn contains_text(s: Seq<char>, pattern: Seq<char>) -> bool {
    exists|at: int| #[trigger] occurs_at(s, pattern, at)
}

/// `at` is the first place, from `from` on, where `pattern` stands in `s`.
pub open spec fn first_occurrence(s: Seq<char>, pattern: Seq<char>, from: int, at: int) -> bool {
    &&& from <= at
    &&& occurs_at(s, pattern, at)
    &&& forall|before: int| from <= before < at ==> !#[trigger] occurs_at(s, pattern, before)
}

/// `pattern` stands nowhere in `s` from `from` on.
pub open spec fn absent_from(s: Seq<char>, pattern: Seq<char>, from: int) -> bool {
    forall|at: int| from <= at ==> !#[trigger] occurs_at(s, pattern, at)
}

/// The first place, from `from` on, where `pattern` stands in `s`.
pub open spec fn position(s: Seq<char>, pattern: Seq<char>, from: int) -> Option<int>
    decreases s.len() - from + 1,
{
    if from > s.len() {
        None
    } else if occurs_at(s, pattern, from) {
        Some(from)
    } else {
        position(s, pattern, from + 1)
    }
}

/// What stands in `s` after the last `mark`.
pub open spec fn after_last(s: Seq<char>, mark: char) -> Option<Seq<char>>
    decreases s.len(),
{
    if s.len() == 0 {
        None
    } else if s.last() == mark {
        Some(Seq::empty())
    } else {
        match after_last(s.drop_last(), mark) {
            Some(rest) => Some(rest.push(s.last())),
            None => None,
        }
    }
}

/// The lower-case form of an ASCII letter; any other character is its own.
pub open spec fn ascii_lower(c: char) -> char {
    if 'A' <= c <= 'Z' {
        (c as int + 32) as char
    } else {
        c
    }
}

pub open spec fn ascii_lowered(s: Seq<char>) -> Seq<char> {
    s.map_values(|c: char| ascii_lower(c))
}

/// Why a text is not a number.
#[derive(Clone, Copy, Debug, PartialEq, Eq, Structural)]
pub enum NumberFault {
    Empty,
    InvalidDigit,
    TooLarge,
}

/// The value of a run of digits, read from the left; the first character that is no digit, or
/// that takes the value past `u64::MAX`, decides the fault.
pub open spec fn digits_value(s: Seq<char>) -> Result<nat, NumberFault>
    decreases s.len(),
{
    if s.len() == 0 {
        Ok(0)
    } else {
        match digits_value(s.drop_last()) {
            Err(fault) => Err(fault),
            Ok(value) => if !is_digit(s.last()) {
                Err(NumberFault::InvalidDigit)
            } else if value * 10 + (s.last() as int - 48) > u64::MAX {
                Err(NumberFault::TooLarge)
            } else {
                Ok((value * 10 + (s.last() as int - 48)) as nat)
            },
        }
    }
}

/// The unsigned number that a text stands for: digits, after at most one plus sign.
pub open spec fn number_value(s: Seq<char>) -> Result<nat, NumberFault> {
    if s.len() == 0 {
        Err(NumberFault::Empty)
    } else if s[0] == '+' {
        if s.len() == 1 {
            Err(NumberFault::InvalidDigit)
        } else {
            digits_value(s.drop_first())
        }
    } else {
        digits_value(s)
    }
}

/// What a number fault is called in a message.
pub open spec fn fault_text(fault: NumberFault) -> Seq<char> {
    match fault {
        NumberFault::Empty => "cannot parse integer from empty string"@,
        NumberFault::InvalidDigit => "invalid digit found in string"@,
        NumberFault::TooLarge => "number too large to fit in target type"@,
    }
}

impl NumberFault {
    pub fn text(self) -> (r: &'static str)
        ensures
            r@ == fault_text(self),
    {
        match self {
            NumberFault::Empty => "cannot parse integer from empty string",
            NumberFault::InvalidDigit => "invalid digit found in string",
            NumberFault::TooLarge => "number too large to fit in target type",
        }
    }
}

/// The characters of a text.
pub fn chars_of(s: &str) -> (r: Vec<char>)
    ensures
        r@ == s@,
{
    let mut out: Vec<char> = Vec::new();
    for c in it: s.chars()
        invariant
            out@ == s@.take(it.index() as int),
            it.seq() == s@,
    {
        proof {
            assert(s@.take(it.index() as int + 1) =~= s@.take(it.index() as int).push(c));
        }
        out.push(c);
    }
    proof {
        assert(s@.take(s@.len() as int) =~= s@);
    }
    out
}

fn digit_text(d: u64) -> (r: &'static str)
    requires
        d < 10,
    ensures
        r@ == seq![digit_char(d as int)],
{
    proof {
        reveal_strlit("0");
        reveal_strlit("1");
        reveal_strlit("2");
        reveal_strlit("3");
        reveal_strlit("4");
        reveal_strlit("5");
        reveal_strlit("6");
        reveal_strlit("7");
        reveal_strlit("8");
        reveal_strlit("9");
    }
    match d {
        0 => "0",
        1 => "1",
        2 => "2",
        3 => "3",
        4 => "4",
        5 => "5",
        6 => "6",
        7 => "7",
        8 => "8",
        _ => "9",
    }
}

/// Appends `n` in decimal.
pub fn append_decimal(out: &mut String, n: u64)
    ensures
        final(out)@ == old(out)@ + decimal(n as nat),
    decreases n,
{
    if n >= 10 {
        append_decimal(out, n / 10);
    }
    out.append(digit_text(n % 10));
}

/// Whether `pattern` stands in `s` at `at`.
pub fn stands_at(s: &Vec<char>, pattern: &Vec<char>, at: usize) -> (r: bool)
    ensures
        r == occurs_at(s@, pattern@, at as int),
{
    if at > s.len() || pattern.len() > s.len() - at {
        return false;
    }
    let mut i: usize = 0;
    while i < pattern.len()
        invariant
            i <= pattern.len(),
            at + pattern.len() <= s.len(),
            forall|j: int| 0 <= j < i ==> s@[at + j] == pattern@[j],
        decreases pattern.len() - i,
    {
        if s[at + i] != pattern[i] {
            proof {
                assert(s@.subrange(at as int, at + pattern@.len())[i as int] == s@[at + i]);
            }
            return false;
        }
        i = i + 1;
    }
    proof {
        assert(s@.subrange(at as int, at + pattern@.len()) =~= pattern@);
    }
    true
}

/// The first place, from `from` on, where `pattern` stands in `s`.
pub fn find_from(s: &Vec<char>, pattern: &Vec<char>, from: usize) -> (r: Option<usize>)
    ensures
        match r {
            Some(at) => first_occurrence(s@, pattern@, from as int, at as int),
            None => absent_from(s@, pattern@, from as int),
        },
        match position(s@, pattern@, from as int) {
            Some(at) => r == Some(at as usize) && 0 <= at <= usize::MAX,
            None => r is None,
        },
{
    let mut at: usize = from;
    while at < s.len()
        invariant
            from <= at,
            position(s@, pattern@, from as int) == position(s@, pattern@, at as int),
            forall|before: int|
                from <= before < at ==> !#[trigger] occurs_at(s@, pattern@, before),
        decreases s.len() - at,
    {
        if stands_at(s, pattern, at) {
            return Some(at);
        }
        at = at + 1;
    }
    if stands_at(s, pattern, at) {
        return Some(at);
    }
    proof {
        assert(position(s@, pattern@, at + 1) is None);
    }
    None
}

/// The place after the last `mark` in `s`.
pub fn find_after_last(s: &Vec<char>, mark: char) -> (r: Option<usize>)
    ensures
        match r {
            Some(start) => start <= s.len() && after_last(s@, mark) == Some(
                s@.subrange(start as int, s@.len() as int),
            ),
            None => after_last(s@, mark) is None,
        },
{
    let mut result: Option<usize> = None;
    let mut i: usize = 0;
    proof {
        assert(s@.take(0).len() == 0);
    }
    while i < s.len()
        invariant
            i <= s.len(),
            match result {
                Some(start) => start <= i && after_last(s@.take(i as int), mark) == Some(
                    s@.subrange(start as int, i as int),
                ),
                None => after_last(s@.take(i as int), mark) is None,
            },
        decreases s.len() - i,
    {
        proof {
            let seen = s@.take(i + 1);
            assert(seen.drop_last() =~= s@.take(i as int));
            assert(seen.last() == s@[i as int]);
            if let Some(start) = result {
                assert(s@.subrange(start as int, i + 1) =~= s@.subrange(
                    start as int,
                    i as int,
                ).push(s@[i as int]));
            }
            assert(s@.subrange(i + 1, i + 1) =~= Seq::<char>::empty());
        }
        if s[i] == mark {
            result = Some(i + 1);
        }
        i = i + 1;
    }
    proof {
        assert(s@.take(s@.len() as int) =~= s@);
    }
    result
}

/// The characters with ASCII capitals made small.
pub fn lowered_chars(s: &Vec<char>) -> (r: Vec<char>)
    ensures
        r@ == ascii_lowered(s@),
{
    let mut out: Vec<char> = Vec::new();
    let mut i: usize = 0;
    while i < s.len()
        invariant
            i <= s.len(),
            out@ == ascii_lowered(s@.take(i as int)),
        decreases s.len() - i,
    {
        proof {
            assert(ascii_lowered(s@.take(i + 1)) =~= ascii_lowered(s@.take(i as int)).push(
                ascii_lower(s@[i as int]),
            ));
        }
        let c: char = s[i];
        if 'A' <= c && c <= 'Z' {
            out.push((c as u8 + 32) as char);
        } else {
            out.push(c);
        }
        i = i + 1;
    }
    proof {
        assert(s@.take(s@.len() as int) =~= s@);
    }
    out
}

/// Whether `pattern` stands anywhere in `s`.
pub fn contains(s: &str, pattern: &str) -> (r: bool)
    ensures
        r == contains_text(s@, pattern@),
{
    let chars = chars_of(s);
    let wanted = chars_of(pattern);
    match find_from(&chars, &wanted, 0) {
        Some(at) => {
            proof {
                assert(occurs_at(s@, pattern@, at as int));
            }
            true
        },
        None => false,
    }
}

/// Whether `s` begins with `prefix`.
pub fn begins_with(s: &str, prefix: &str) -> (r: bool)
    ensures
        r == prefix@.is_prefix_of(s@),
{
    let chars = chars_of(s);
    let wanted = chars_of(prefix);
    let found = stands_at(&chars, &wanted, 0);
    proof {
        assert(s@.len() >= prefix@.len() ==> s@.subrange(0, prefix@.len() as int) == s@.take(
            prefix@.len() as int,
        ));
    }
    found
}

/// Whether `s` ends with `suffix`.
pub fn finishes_with(s: &str, suffix: &str) -> (r: bool)
    ensures
        r == suffix@.is_suffix_of(s@),
{
    let chars = chars_of(s);
    let wanted = chars_of(suffix);
    if wanted.len() > chars.len() {
        return false;
    }
    let start: usize = chars.len() - wanted.len();
    let found = stands_at(&chars, &wanted, start);
    proof {
        assert(s@.subrange(start as int, start + suffix@.len()) =~= s@.subrange(
            (s@.len() - suffix@.len()) as int,
            s@.len() as int,
        ));
    }
    found
}

pub fn is_white_space(c: char) -> (r: bool)
    ensures
        r == is_space(c),
{
    let n: u32 = c as u32;
    (0x9 <= n && n <= 0xd) || n == 0x20 || n == 0x85 || n == 0xa0 || n == 0x1680 || (0x2000 <= n
        && n <= 0x200a) || n == 0x2028 || n == 0x2029 || n == 0x202f || n == 0x205f || n == 0x3000
}

/// The bounds of `s[from..to]` without the white space at its two ends.
pub fn trim_range(s: &Vec<char>, from: usize, to: usize) -> (r: (usize, usize))
    requires
        from <= to <= s.len(),
    ensures
        from <= r.0 <= r.1 <= to,
        s@.subrange(r.0 as int, r.1 as int) == trimmed(s@.subrange(from as int, to as int)),
{
    let ghost whole = s@.subrange(from as int, to as int);
    let mut start: usize = from;
    while start < to && is_white_space(s[start])
        invariant
            from <= start <= to <= s.len(),
            trimmed_start(s@.subrange(start as int, to as int)) == trimmed_start(whole),
        decreases to - start,
    {
        proof {
            let rest = s@.subrange(start as int, to as int);
            assert(rest[0] == s@[start as int]);
            assert(rest.drop_first() =~= s@.subrange(start + 1, to as int));
        }
        start = start + 1;
    }
    let ghost middle = s@.subrange(start as int, to as int);
    proof {
        assert(middle.len() > 0 ==> middle[0] == s@[start as int]);
        assert(trimmed_start(middle) == middle);
    }
    let mut end: usize = to;
    while end > start && is_white_space(s[end - 1])
        invariant
            from <= start <= end <= to <= s.len(),
            trimmed_end(s@.subrange(start as int, end as int)) == trimmed_end(middle),
        decreases end,
    {
        proof {
            let rest = s@.subrange(start as int, end as int);
            assert(rest.last() == s@[end - 1]);
            assert(rest.drop_last() =~= s@.subrange(start as int, end - 1));
        }
        end = end - 1;
    }
    proof {
        let rest = s@.subrange(start as int, end as int);
        assert(rest.len() > 0 ==> rest.last() == s@[end - 1]);
    }
    (start, end)
}

/// The number that the characters from `from` up to `to` stand for.
pub fn parse_number(s: &Vec<char>, from: usize, to: usize) -> (r: Result<u64, NumberFault>)
    requires
        from <= to <= s.len(),
    ensures
        match number_value(s@.subrange(from as int, to as int)) {
            Ok(value) => r == Ok::<u64, NumberFault>(value as u64) && value <= u64::MAX,
            Err(fault) => r == Err::<u64, NumberFault>(fault),
        },
{
    let ghost whole = s@.subrange(from as int, to as int);
    if from == to {
        return Err(NumberFault::Empty);
    }
    proof {
        assert(whole[0] == s@[from as int]);
    }
    let mut start: usize = from;
    if s[from] == '+' {
        if to - from == 1 {
            return Err(NumberFault::InvalidDigit);
        }
        start = from + 1;
        proof {
            assert(whole.drop_first() =~= s@.subrange(start as int, to as int));
        }
    }
    let ghost digits = s@.subrange(start as int, to as int);
    assert(number_value(whole) == digits_value(digits));
    let mut value: u64 = 0;
    let mut i: usize = start;
    proof {
        assert(s@.subrange(start as int, start as int).len() == 0);
    }
    while i < to
        invariant
            start <= i <= to <= s.len(),
            digits == s@.subrange(start as int, to as int),
            digits_value(s@.subrange(start as int, i as int)) == Ok::<nat, NumberFault>(
                value as nat,
            ),
            number_value(whole) == digits_value(digits),
            whole == s@.subrange(from as int, to as int),
        decreases to - i,
    {
        let ghost seen = s@.subrange(start as int, i + 1);
        proof {
            assert(seen.drop_last() =~= s@.subrange(start as int, i as int));
            assert(seen.last() == s@[i as int]);
            assert(seen =~= digits.take(i + 1 - start));
            if digits_value(seen) is Err {
                lemma_fault_stays(digits, i + 1 - start);
            }
        }
        let c: char = s[i];
        if !('0' <= c && c <= '9') {
            return Err(NumberFault::InvalidDigit);
        }
        let digit: u64 = (c as u32 - 48) as u64;
        if value > u64::MAX / 10 || value * 10 > u64::MAX - digit {
            return Err(NumberFault::TooLarge);
        }
        value = value * 10 + digit;
        i = i + 1;
    }
    Ok(value)
}

/// A fault found in the first `n` characters is the fault of the whole run.
proof fn lemma_fault_stays(s: Seq<char>, n: int)
    requires
        0 <= n <= s.len(),
        digits_value(s.take(n)) is Err,
    ensures
        digits_value(s) == digits_value(s.take(n)),
    decreases s.len(),
{
    if n < s.len() {
        assert(s.drop_last().take(n) =~= s.take(n));
        lemma_fault_stays(s.drop_last(), n);
    } else {
        assert(s.take(n) =~= s);
    }
}

/// A text reads back as the number it was printed from.
pub proof fn law_printed_number_reads_back(n: u64)
    ensures
        number_value(decimal(n as nat)) == Ok::<nat, NumberFault>(n as nat),
{
    lemma_decimal_digits(n as nat);
    lemma_digits_of_decimal(n as nat);
}

proof fn lemma_digits_of_decimal(n: nat)
    requires
        n <= u64::MAX,
    ensures
        digits_value(decimal(n)) == Ok::<nat, NumberFault>(n),
    decreases n,
{
    if n < 10 {
        assert(decimal(n).drop_last().len() == 0);
        assert(digits_value(decimal(n).drop_last()) == Ok::<nat, NumberFault>(0));
    } else {
        lemma_digits_of_decimal(n / 10);
        assert(decimal(n).drop_last() =~= decimal(n / 10));
    }
}

/// A printed number is a run of digits, at least one of them.
pub proof fn lemma_decimal_digits(n: nat)
    ensures
        decimal(n).len() > 0,
        forall|i: int| 0 <= i < decimal(n).len() ==> is_digit(#[trigger] decimal(n)[i]),
    decreases n,
{
    if n >= 10 {
        lemma_decimal_digits(n / 10);
    }
}

/// A run of characters has a value exactly if all of them are digits and the number they write
/// fits in 64 bits.
pub proof fn law_number_is_all_digits(s: Seq<char>)
    ensures
        digits_value(s) is Ok <==> {
            &&& forall|i: int| 0 <= i < s.len() ==> is_digit(#[trigger] s[i])
            &&& positional_value(s) <= u64::MAX
        },
        digits_value(s) is Ok ==> digits_value(s)->Ok_0 == positional_value(s),
    decreases s.len(),
{
    if s.len() > 0 {
        let front = s.drop_last();
        law_number_is_all_digits(front);
        assert(forall|i: int| 0 <= i < front.len() ==> front[i] == s[i]);
        if forall|i: int| 0 <= i < s.len() ==> is_digit(#[trigger] s[i]) {
            assert(is_digit(s[s.len() - 1]));
            assert(forall|i: int| 0 <= i < front.len() ==> is_digit(#[trigger] front[i]));
        }
    }
}

/// The number that a run of digits writes, of any size.
pub open spec fn positional_value(s: Seq<char>) -> int
    decreases s.len(),
{
    if s.len() == 0 {
        0
    } else {
        positional_value(s.drop_last()) * 10 + (s.last() as int - 48)
    }
}

/// A printed number has the digits that write it, and no zero before them.
pub proof fn law_printed_number_is_written_in_digits(n: nat)
    ensures
        positional_value(decimal(n)) == n,
        decimal(n).len() > 0,
        forall|i: int| 0 <= i < decimal(n).len() ==> '0' <= #[trigger] decimal(n)[i] <= '9',
        decimal(n).len() > 1 ==> decimal(n)[0] != '0',
    decreases n,
{
    if n < 10 {
        assert(positional_value(decimal(n).drop_last()) == 0);
    } else {
        law_printed_number_is_written_in_digits(n / 10);
        assert(decimal(n).drop_last() =~= decimal(n / 10));
        assert(decimal(n)[0] == decimal(n / 10)[0]);
        if decimal(n / 10).len() == 1 && decimal(n / 10)[0] == '0' {
            assert(positional_value(decimal(n / 10).drop_last()) == 0);
            assert(positional_value(decimal(n / 10)) == 0);
        }
    }
}

/// A run of digits, with or without a plus before it, reads as the number that it writes, as far
/// as that fits in 64 bits; what is no such run is no number.
pub proof fn law_numbers_read_as_they_are_written(s: Seq<char>)
    requires
        s.len() > 0,
    ensures
        ({
            let digits = forall|i: int| 0 <= i < s.len() ==> '0' <= #[trigger] s[i] <= '9';
            &&& digits && positional_value(s) <= u64::MAX ==> {
                &&& number_value(s) == Ok::<nat, NumberFault>(positional_value(s) as nat)
                &&& number_value(seq!['+'] + s) == Ok::<nat, NumberFault>(
                    positional_value(s) as nat,
                )
            }
            &&& digits && positional_value(s) > u64::MAX ==> {
                &&& number_value(s) == Err::<nat, NumberFault>(NumberFault::TooLarge)
                &&& number_value(seq!['+'] + s) == Err::<nat, NumberFault>(NumberFault::TooLarge)
            }
            &&& !digits && s[0] != '+' ==> number_value(s) is Err
            &&& !digits ==> number_value(seq!['+'] + s) is Err
        }),
        number_value(Seq::<char>::empty()) == Err::<nat, NumberFault>(NumberFault::Empty),
{
    law_number_is_all_digits(s);
    assert((seq!['+'] + s).drop_first() =~= s);
    if forall|i: int| 0 <= i < s.len() ==> '0' <= #[trigger] s[i] <= '9' {
        lemma_digits_are_only_too_large(s);
        assert(forall|i: int| 0 <= i < s.len() ==> is_digit(#[trigger] s[i]));
        lemma_positional_nonnegative(s);
        assert('0' <= s[0] <= '9');
    } else {
        let i = choose|i: int| 0 <= i < s.len() && !('0' <= #[trigger] s[i] <= '9');
        assert(!is_digit(s[i]));
    }
}

proof fn lemma_positional_nonnegative(s: Seq<char>)
    requires
        forall|i: int| 0 <= i < s.len() ==> '0' <= #[trigger] s[i] <= '9',
    ensures
        positional_value(s) >= 0,
    decreases s.len(),
{
    if s.len() > 0 {
        assert('0' <= s[s.len() - 1] <= '9');
        lemma_positional_nonnegative(s.drop_last());
    }
}

proof fn lemma_digits_are_only_too_large(s: Seq<char>)
    requires
        forall|i: int| 0 <= i < s.len() ==> '0' <= #[trigger] s[i] <= '9',
    ensures
        digits_value(s) is Err ==> digits_value(s) == Err::<nat, NumberFault>(
            NumberFault::TooLarge,
        ),
    decreases s.len(),
{
    if s.len() > 0 {
        assert('0' <= s[s.len() - 1] <= '9');
        lemma_digits_are_only_too_large(s.drop_last());
    }
}

/// Trimming takes white space from the two ends of a text, all of it, and nothing else: what is
/// left lies between the returned bounds.
pub proof fn law_trimming_takes_the_ends(s: Seq<char>) -> (bounds: (int, int))
    ensures
        0 <= bounds.0 <= bounds.1 <= s.len(),
        trimmed(s) == s.subrange(bounds.0, bounds.1),
        forall|i: int|
            0 <= i < s.len() && !(bounds.0 <= i < bounds.1) ==> is_space(#[trigger] s[i]),
        bounds.0 < bounds.1 ==> !is_space(s[bounds.0]) && !is_space(s[bounds.1 - 1]),
{
    let start = lemma_trimmed_start(s);
    let rest = s.skip(start);
    let len = lemma_trimmed_end(rest);
    assert(s.subrange(start, start + len) =~= rest.take(len));
    assert forall|i: int| 0 <= i < s.len() && !(start <= i < start + len) implies is_space(
        #[trigger] s[i],
    ) by {
        if i >= start + len {
            assert(rest[i - start] == s[i]);
        }
    }
    if len > 0 {
        assert(rest[0] == s[start]);
        assert(rest[len - 1] == s[start + len - 1]);
    }
    (start, start + len)
}

proof fn lemma_trimmed_start(s: Seq<char>) -> (start: int)
    ensures
        0 <= start <= s.len(),
        trimmed_start(s) == s.skip(start),
        forall|i: int| 0 <= i < start ==> is_space(#[trigger] s[i]),
        start < s.len() ==> !is_space(s[start]),
    decreases s.len(),
{
    if s.len() > 0 && is_space(s[0]) {
        let rest = s.drop_first();
        let after = lemma_trimmed_start(rest);
        assert(rest.skip(after) =~= s.skip(after + 1));
        assert forall|i: int| 0 <= i < after + 1 implies is_space(#[trigger] s[i]) by {
            if i > 0 {
                assert(rest[i - 1] == s[i]);
            }
        }
        after + 1
    } else {
        assert(s.skip(0) =~= s);
        0
    }
}

proof fn lemma_trimmed_end(s: Seq<char>) -> (len: int)
    ensures
        0 <= len <= s.len(),
        trimmed_end(s) == s.take(len),
        forall|i: int| len <= i < s.len() ==> is_space(#[trigger] s[i]),
        len > 0 ==> !is_space(s[len - 1]),
    decreases s.len(),
{
    if s.len() > 0 && is_space(s.last()) {
        let front = s.drop_last();
        let len = lemma_trimmed_end(front);
        assert(front.take(len) =~= s.take(len));
        assert forall|i: int| len <= i < s.len() implies is_space(#[trigger] s[i]) by {
            if i < front.len() {
                assert(front[i] == s[i]);
            }
        }
        len
    } else {
        assert(s.take(s.len() as int) =~= s);
        s.len() as int
    }
}

/// The space, the tab and the line ends are white space, and nothing that is printed in ASCII is.
pub proof fn law_printed_characters_are_no_white_space(c: char)
    ensures
        c == ' ' || c == '\t' || c == '\n' || c == '\r' ==> is_space(c),
        '!' <= c <= '~' ==> !is_space(c),
{
}

/// A search finds the first place where the pattern stands, if there is one.
pub proof fn law_search_finds_the_first_place(s: Seq<char>, pattern: Seq<char>, from: int)
    requires
        0 <= from,
    ensures
        match position(s, pattern, from) {
            Some(at) => {
                &&& from <= at <= s.len() - pattern.len()
                &&& s.subrange(at, at + pattern.len()) == pattern
                &&& forall|before: int|
                    from <= before < at ==> #[trigger] s.subrange(before, before + pattern.len())
                        != pattern
            },
            None => forall|at: int|
                from <= at <= s.len() - pattern.len() ==> #[trigger] s.subrange(
                    at,
                    at + pattern.len(),
                ) != pattern,
        },
    decreases s.len() - from + 1,
{
    if from <= s.len() && !occurs_at(s, pattern, from) {
        law_search_finds_the_first_place(s, pattern, from + 1);
    }
}

/// A text contains a pattern exactly if the pattern stands somewhere in it.
pub proof fn law_containing_is_standing_somewhere(
    before: Seq<char>,
    pattern: Seq<char>,
    after: Seq<char>,
    s: Seq<char>,
)
    ensures
        contains_text(before + pattern + after, pattern),
        contains_text(s, pattern) ==> exists|at: int|
            0 <= at <= s.len() - pattern.len() && #[trigger] s.subrange(at, at + pattern.len())
                == pattern,
{
    let whole = before + pattern + after;
    let at = before.len() as int;
    assert(whole.subrange(at, at + pattern.len()) =~= pattern);
    assert(occurs_at(whole, pattern, at));
    if contains_text(s, pattern) {
        let place = choose|place: int| #[trigger] occurs_at(s, pattern, place);
        assert(s.subrange(place, place + pattern.len()) == pattern);
    }
}

/// What stands after the last mark has no mark in it, and a text without one has no such part.
pub proof fn law_last_part_is_after_the_last_mark(front: Seq<char>, part: Seq<char>, mark: char)
    requires
        !part.contains(mark),
    ensures
        after_last(front.push(mark) + part, mark) == Some(part),
        after_last(part, mark) is None,
    decreases part.len(),
{
    let whole = front.push(mark) + part;
    if part.len() == 0 {
        assert(whole.last() == mark);
        assert(part =~= Seq::empty());
    } else {
        let shorter = part.drop_last();
        assert(part.last() == part[part.len() - 1]);
        assert(!shorter.contains(mark)) by {
            if shorter.contains(mark) {
                let i = choose|i: int| 0 <= i < shorter.len() && shorter[i] == mark;
                assert(part[i] == mark);
            }
        }
        law_last_part_is_after_the_last_mark(front, shorter, mark);
        assert(whole.drop_last() =~= front.push(mark) + shorter);
        assert(whole.last() == part.last());
        assert(part =~= shorter.push(part.last()));
    }
}

/// Lowering turns each ASCII capital into its small letter and leaves every other character.
pub proof fn law_lowering_is_of_capitals_only(s: Seq<char>, i: int)
    requires
        0 <= i < s.len(),
    ensures
        ascii_lowered(s).len() == s.len(),
        'A' <= s[i] <= 'Z' ==> ascii_lowered(s)[i] as int - 'a' as int == s[i] as int - 'A' as int,
        !('A' <= s[i] <= 'Z') ==> ascii_lowered(s)[i] == s[i],
{
}

/// White space is these characters and no others.
pub proof fn law_white_space_is_known(c: char)
    ensures
        is_space(c) <==> seq![
            0x9int,
            0xa,
            0xb,
            0xc,
            0xd,
            0x20,
            0x85,
            0xa0,
            0x1680,
            0x2000,
            0x2001,
            0x2002,
            0x2003,
            0x2004,
            0x2005,
            0x2006,
            0x2007,
            0x2008,
            0x2009,
            0x200a,
            0x2028,
            0x2029,
            0x202f,
            0x205f,
            0x3000,
        ].contains(c as int),
{
    let known = seq![
        0x9int,
        0xa,
        0xb,
        0xc,
        0xd,
        0x20,
        0x85,
        0xa0,
        0x1680,
        0x2000,
        0x2001,
        0x2002,
        0x2003,
        0x2004,
        0x2005,
        0x2006,
        0x2007,
        0x2008,
        0x2009,
        0x200a,
        0x2028,
        0x2029,
        0x202f,
        0x205f,
        0x3000,
    ];
    let n = c as int;
    if is_space(c) {
        let at: int = if n <= 0xd {
            n - 9
        } else if n == 0x20 {
            5
        } else if n == 0x85 {
            6
        } else if n == 0xa0 {
            7
        } else if n == 0x1680 {
            8
        } else if n <= 0x200a {
            n - 0x2000 + 9
        } else if n == 0x2028 {
            20
        } else if n == 0x2029 {
            21
        } else if n == 0x202f {
            22
        } else if n == 0x205f {
            23
        } else {
            24
        };
        assert(known[at] == n);
    }
}

/// Why a text is not a number: nothing is written, a character that is no digit comes before the
/// digits are too many, or the digits tell more than 64 bits can. A plus sign before digits is no
/// matter, and alone it is no number.
pub proof fn law_faults_are_told_apart(digits: Seq<char>, c: char, rest: Seq<char>)
    requires
        forall|i: int| 0 <= i < digits.len() ==> is_digit(#[trigger] digits[i]),
    ensures
        number_value(Seq::empty()) == Err::<nat, NumberFault>(NumberFault::Empty),
        number_value(seq!['+']) == Err::<nat, NumberFault>(NumberFault::InvalidDigit),
        digits.len() > 0 ==> number_value(seq!['+'] + digits) == number_value(digits),
        positional_value(digits) > u64::MAX ==> number_value(digits) == Err::<nat, NumberFault>(
            NumberFault::TooLarge,
        ) && number_value(digits.push(c) + rest) == Err::<nat, NumberFault>(NumberFault::TooLarge),
        positional_value(digits) <= u64::MAX && !is_digit(c) && (digits.len() > 0 || c != '+')
            ==> number_value(digits.push(c) + rest) == Err::<nat, NumberFault>(
            NumberFault::InvalidDigit,
        ),
{
    lemma_run_of_digits(digits);
    if digits.len() > 0 {
        assert(is_digit(digits[0]));
        assert((seq!['+'] + digits).drop_first() =~= digits);
    }
    let front = digits.push(c);
    assert(front.drop_last() =~= digits);
    if positional_value(digits) > u64::MAX {
        assert(digits.len() > 0);
        lemma_faults_stay(front, rest, NumberFault::TooLarge);
    } else if !is_digit(c) {
        lemma_faults_stay(front, rest, NumberFault::InvalidDigit);
    }
    assert((front + rest)[0] == front[0]);
}

proof fn lemma_run_of_digits(digits: Seq<char>)
    requires
        forall|i: int| 0 <= i < digits.len() ==> is_digit(#[trigger] digits[i]),
    ensures
        positional_value(digits) >= 0,
        positional_value(digits) <= u64::MAX ==> digits_value(digits) == Ok::<nat, NumberFault>(
            positional_value(digits) as nat,
        ),
        positional_value(digits) > u64::MAX ==> digits_value(digits) == Err::<nat, NumberFault>(
            NumberFault::TooLarge,
        ),
    decreases digits.len(),
{
    if digits.len() > 0 {
        assert(is_digit(digits[digits.len() - 1]));
        assert forall|i: int| 0 <= i < digits.drop_last().len() implies is_digit(
            #[trigger] digits.drop_last()[i],
        ) by {
            assert(is_digit(digits[i]));
        }
        lemma_run_of_digits(digits.drop_last());
    }
}

proof fn lemma_faults_stay(front: Seq<char>, rest: Seq<char>, fault: NumberFault)
    requires
        digits_value(front) == Err::<nat, NumberFault>(fault),
    ensures
        digits_value(front + rest) == Err::<nat, NumberFault>(fault),
    decreases rest.len(),
{
    if rest.len() == 0 {
        assert(front + rest =~= front);
    } else {
        assert((front + rest).drop_last() =~= front + rest.drop_last());
        lemma_faults_stay(front, rest.drop_last(), fault);
    }
}

/// How each fault is told.
pub proof fn law_faults_have_their_texts(fault: NumberFault)
    ensures
        fault == NumberFault::Empty ==> fault_text(fault)
            == "cannot parse integer from empty string"@,
        fault == NumberFault::InvalidDigit ==> fault_text(fault)
            == "invalid digit found in string"@,
        fault == NumberFault::TooLarge ==> fault_text(fault)
            == "number too large to fit in target type"@,
{
}

} // verus!
