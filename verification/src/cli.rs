//! What the command line asks for.
use crate::error;
use crate::error::{DlError, DlErrorView};
use crate::show;
use crate::text;
use crate::types::{DownloadOptions, DownloadSource, DownloadSummary, TorrentInput};
use vstd::prelude::*;
use vstd::string::*;

verus! {

/// The arguments of the program.
#[derive(Debug)]
pub struct Cli {
    /// A URL, a magnet link or a torrent file.
    pub source: String,
    /// Where the download goes, if that is said.
    pub output: Option<String>,
    pub connections: usize,
    pub chunk_size: u64,
    pub no_resume: bool,
    pub overwrite: bool,
    /// The source is a torrent, whatever it looks like.
    pub torrent: bool,
}

/// The source is a torrent: it is said to be one, it is a magnet link, or it is a file by that
/// name and no URL.
pub open spec fn names_torrent(source: Seq<char>, torrent: bool) -> bool {
    ||| torrent
    ||| "magnet:"@.is_prefix_of(source)
    ||| !"http://"@.is_prefix_of(source) && !"https://"@.is_prefix_of(source)
        && ".torrent"@.is_suffix_of(source)
}

/// What the arguments ask for.
pub fn classify_source(cli: &Cli) -> (r: DownloadSource)
    ensures
        match r {
            DownloadSource::Torrent(input) => names_torrent(cli.source@, cli.torrent)
                && input.source@ == cli.source@,
            DownloadSource::Http(url) => !names_torrent(cli.source@, cli.torrent) && url@
                == cli.source@,
        },
{
    if cli.torrent || text::begins_with(&cli.source, "magnet:") || (!text::begins_with(
        &cli.source,
        "http://",
    ) && !text::begins_with(&cli.source, "https://") && text::finishes_with(
        &cli.source,
        ".torrent",
    )) {
        DownloadSource::Torrent(TorrentInput::from_source(cli.source.clone()))
    } else {
        DownloadSource::Http(cli.source.clone())
    }
}

/// The path segments of a URL, as the url crate reads it; none if it is no URL or has no path of
/// segments.
pub uninterp spec fn url_segments(input: Seq<char>) -> Option<Seq<Seq<char>>>;

pub open spec fn segments_view(segments: Option<Vec<String>>) -> Option<Seq<Seq<char>>> {
    match segments {
        Some(list) => Some(list@.map_values(|segment: String| segment@)),
        None => None,
    }
}

/// The file name at the end of a path, or a name for want of one.
pub open spec fn output_name(segments: Option<Seq<Seq<char>>>) -> Seq<char> {
    match segments {
        Some(list) => if list.len() > 0 && list.last().len() > 0 {
            list.last()
        } else {
            "download.bin"@
        },
        None => "download.bin"@,
    }
}

/// Calls `Url::parse` and `Url::path_segments` of the url crate, and collects the segments. The
/// path is split at every slash, so no segment has one. How a text is read as a URL, and what its
/// path is, is left to the name.
#[verifier::external_body]
fn url_path_segments(input: &str) -> (r: Option<Vec<String>>)
    ensures
        segments_view(r) == url_segments(input@),
        r is Some ==> forall|i: int|
            0 <= i < r->Some_0@.len() ==> !(#[trigger] r->Some_0@[i])@.contains('/'),
{
    let url = url::Url::parse(input).ok()?;
    url.path_segments().map(|segments| segments.map(|segment| segment.to_string()).collect())
}

/// The file name at the end of a path of segments.
pub fn name_from_segments(segments: &Option<Vec<String>>) -> (r: String)
    ensures
        r@ == output_name(segments_view(*segments)),
{
    match segments {
        Some(list) => {
            if list.len() > 0 {
                let last: &String = &list[list.len() - 1];
                proof {
                    let view = segments_view(*segments)->Some_0;
                    assert(view.last() == list@[list@.len() - 1]@);
                }
                if !last.as_str().is_empty() {
                    return last.clone();
                }
            }
            "download.bin".to_string()
        },
        None => "download.bin".to_string(),
    }
}

/// Where a download goes that is given no place: a torrent into the current directory, a URL
/// into a file there with the last name of its path.
pub fn default_output_path(source: &DownloadSource, raw_source: &str) -> (r: String)
    ensures
        r@ == (match source {
            DownloadSource::Torrent(_) => "."@,
            DownloadSource::Http(_) => output_name(url_segments(raw_source@)),
        }),
        !r@.contains('/'),
{
    proof {
        reveal_strlit(".");
        reveal_strlit("download.bin");
    }
    match source {
        DownloadSource::Torrent(_) => ".".to_string(),
        DownloadSource::Http(_) => {
            let segments = url_path_segments(raw_source);
            proof {
                if let Some(list) = &segments {
                    if list@.len() > 0 {
                        assert(segments_view(segments)->Some_0.last() == list@[list@.len() - 1]@);
                    }
                }
            }
            name_from_segments(&segments)
        },
    }
}

/// Where the download goes: where the arguments say, or else to its default place.
pub fn chosen_output(cli: &Cli, source: &DownloadSource) -> (r: String)
    ensures
        r@ == (match (cli.output, source) {
            (Some(path), _) => path@,
            (None, DownloadSource::Torrent(_)) => "."@,
            (None, DownloadSource::Http(_)) => output_name(url_segments(cli.source@)),
        }),
{
    match &cli.output {
        Some(path) => path.clone(),
        None => default_output_path(source, &cli.source),
    }
}

/// The options that the arguments ask for.
pub fn download_options(cli: &Cli, only_files: Option<Vec<usize>>) -> (r: DownloadOptions)
    ensures
        r.connections == cli.connections,
        r.chunk_size == cli.chunk_size,
        r.resume == !cli.no_resume,
        r.overwrite == cli.overwrite,
        r.only_files == only_files,
        r.user_agent@ == "dl/0.1.0"@,
        r.metadata_flush_interval == 5_000_000_000,
{
    let mut options = DownloadOptions::default();
    options.connections = cli.connections;
    options.chunk_size = cli.chunk_size;
    options.resume = !cli.no_resume;
    options.overwrite = cli.overwrite;
    options.only_files = only_files;
    options
}

/// What the unit letter at the end of a size stands for.
pub open spec fn size_multiplier(letter: char) -> int {
    if letter == 'k' || letter == 'K' {
        1024
    } else if letter == 'm' || letter == 'M' {
        1_048_576
    } else if letter == 'g' || letter == 'G' {
        1_073_741_824
    } else {
        1
    }
}

/// The bytes that a size stands for, as many as 64 bits can tell; or why it is none.
pub open spec fn size_value(input: Seq<char>) -> Result<int, Seq<char>> {
    let trimmed = text::trimmed(input);
    if trimmed.len() == 0 {
        Err("size must not be empty"@)
    } else {
        let multiplier = size_multiplier(trimmed.last());
        let number = if multiplier == 1 {
            trimmed
        } else {
            trimmed.drop_last()
        };
        match text::number_value(number) {
            Ok(value) => Ok(
                if value * multiplier > u64::MAX {
                    u64::MAX as int
                } else {
                    value * multiplier
                },
            ),
            Err(fault) => Err("invalid size `"@ + input + "`: "@ + text::fault_text(fault)),
        }
    }
}

/// Reads a size: plain bytes, or a number with the suffix K, M or G.
pub fn parse_size(input: &str) -> (r: Result<u64, String>)
    ensures
        match size_value(input@) {
            Ok(value) => r is Ok && r->Ok_0 == value,
            Err(message) => r is Err && r->Err_0@ == message,
        },
{
    let chars = text::chars_of(input);
    proof {
        assert(chars@.subrange(0, chars@.len() as int) =~= chars@);
    }
    let (from, to) = text::trim_range(&chars, 0, chars.len());
    let ghost trimmed = text::trimmed(input@);
    if from == to {
        return Err("size must not be empty".to_string());
    }
    proof {
        assert(trimmed.last() == chars@[to - 1]);
        assert(trimmed.drop_last() =~= chars@.subrange(from as int, to - 1));
    }
    let letter: char = chars[to - 1];
    let multiplier: u64 = if letter == 'k' || letter == 'K' {
        1024
    } else if letter == 'm' || letter == 'M' {
        1024 * 1024
    } else if letter == 'g' || letter == 'G' {
        1024 * 1024 * 1024
    } else {
        1
    };
    let end: usize = if multiplier == 1 {
        to
    } else {
        to - 1
    };
    match text::parse_number(&chars, from, end) {
        Ok(value) => {
            proof {
                vstd::arithmetic::mul::lemma_mul_upper_bound(
                    value as int,
                    u64::MAX as int,
                    multiplier as int,
                    u64::MAX as int,
                );
            }
            let product: u128 = value as u128 * multiplier as u128;
            if product > u64::MAX as u128 {
                Ok(u64::MAX)
            } else {
                Ok(product as u64)
            }
        },
        Err(fault) => {
            let mut message: String = "invalid size `".to_string();
            message.append(input);
            message.append("`: ");
            message.append(fault.text());
            Err(message)
        },
    }
}

/// A size without a suffix is a number of bytes.
pub proof fn law_plain_size_is_bytes(n: u64)
    ensures
        size_value(text::decimal(n as nat)) == Ok::<int, Seq<char>>(n as int),
{
    let digits = text::decimal(n as nat);
    text::law_printed_number_reads_back(n);
    text::lemma_decimal_digits(n as nat);
    lemma_trimmed(digits);
    assert(text::is_digit(digits[digits.len() - 1]));
}

/// A suffix stands for a power of 1024, as a small or a capital letter; what 64 bits cannot tell
/// is as much as they can.
pub proof fn law_suffix_multiplies(n: u64, letter: char)
    requires
        size_multiplier(letter) > 1,
    ensures
        size_value(text::decimal(n as nat).push(letter)) == Ok::<int, Seq<char>>(
            if n * size_multiplier(letter) > u64::MAX {
                u64::MAX as int
            } else {
                n * size_multiplier(letter)
            },
        ),
{
    let digits = text::decimal(n as nat);
    let size = digits.push(letter);
    text::law_printed_number_reads_back(n);
    text::lemma_decimal_digits(n as nat);
    assert(text::is_digit(digits[0]));
    lemma_trimmed(size);
    assert(size.drop_last() =~= digits);
}

/// A text without white space at its ends is as it was after trimming.
proof fn lemma_trimmed(s: Seq<char>)
    requires
        s.len() > 0,
        !text::is_space(s[0]),
        !text::is_space(s.last()),
    ensures
        text::trimmed(s) == s,
{
}

/// What an HTTP URL names is a torrent only if that is said.
pub proof fn law_urls_are_torrents_only_on_demand(source: Seq<char>, torrent: bool)
    requires
        "http://"@.is_prefix_of(source) || "https://"@.is_prefix_of(source),
    ensures
        names_torrent(source, torrent) == torrent,
{
    reveal_strlit("magnet:");
    reveal_strlit("http://");
    reveal_strlit("https://");
    assert(source[0] == 'h') by {
        if "http://"@.is_prefix_of(source) {
            assert("http://"@[0] == source[0]);
        } else {
            assert("https://"@[0] == source[0]);
        }
    }
    if "magnet:"@.is_prefix_of(source) {
        assert("magnet:"@[0] == source[0]);
    }
}

/// What is done about the files of a torrent.
#[derive(Clone, Copy, Debug, PartialEq, Eq, Structural)]
pub enum FileQuestion {
    /// There are none, and the user is told so.
    NoFiles,
    /// There is one, and it is taken.
    TakeAll,
    /// There are several, and the user may choose.
    Ask,
}

/// What is done about so many files of a torrent.
pub fn file_question(count: usize) -> (r: FileQuestion)
    ensures
        r == (if count == 0 {
            FileQuestion::NoFiles
        } else if count == 1 {
            FileQuestion::TakeAll
        } else {
            FileQuestion::Ask
        }),
{
    if count == 0 {
        FileQuestion::NoFiles
    } else if count > 1 {
        FileQuestion::Ask
    } else {
        FileQuestion::TakeAll
    }
}

/// How a file is offered: its name and its size.
pub open spec fn offer(name: Seq<char>, size: u64) -> Seq<char> {
    name + " ("@ + show::size_text(size as nat) + ")"@
}

/// How the files of a torrent, each an index, a name and a size, are offered.
pub fn file_offers(files: &Vec<(usize, String, u64)>) -> (r: Vec<String>)
    ensures
        r.len() == files.len(),
        forall|i: int|
            0 <= i < r.len() ==> (#[trigger] r@[i])@ == offer(files@[i].1@, files@[i].2),
{
    let mut offers: Vec<String> = Vec::new();
    let mut i: usize = 0;
    while i < files.len()
        invariant
            i <= files.len(),
            offers.len() == i,
            forall|k: int|
                0 <= k < i ==> (#[trigger] offers@[k])@ == offer(files@[k].1@, files@[k].2),
        decreases files.len() - i,
    {
        let mut line: String = files[i].1.clone();
        line.append(" (");
        line.append(&show::format_bytes(files[i].2));
        line.append(")");
        offers.push(line);
        i = i + 1;
    }
    offers
}

/// The question that the user has before them.
#[derive(Clone, Copy, Debug, PartialEq, Eq, Structural)]
pub enum Prompt {
    /// Whether to choose files at all.
    Choose,
    /// Which files to take.
    Select,
    /// Whether to cancel, as no file was taken.
    Cancel,
}

/// What came of a question.
#[derive(Debug)]
pub enum Reply {
    YesNo(bool),
    /// The places in the list that were picked.
    Picked(Vec<usize>),
    /// The question could not be asked; the text of the cause.
    Broken(String),
}

/// What comes after a reply.
#[derive(Debug, PartialEq, Eq)]
pub enum Choice {
    Ask(Prompt),
    /// Every file is taken.
    All,
    /// The files with these indices are taken.
    Only(Vec<usize>),
    Failed(DlError),
}

/// The reply fits the question, and names only files that were offered.
pub open spec fn answers(prompt: Prompt, reply: Reply, count: nat) -> bool {
    match reply {
        Reply::YesNo(_) => prompt != Prompt::Select,
        Reply::Picked(places) => prompt == Prompt::Select && forall|i: int|
            0 <= i < places@.len() ==> #[trigger] places@[i] < count,
        Reply::Broken(_) => true,
    }
}

/// What a question that could not be asked is reported as.
pub open spec fn broken_prompt(prompt: Prompt) -> Seq<char> {
    match prompt {
        Prompt::Choose => "interactive prompt failed: "@,
        Prompt::Select => "interactive selection failed: "@,
        Prompt::Cancel => "interactive cancel prompt failed: "@,
    }
}

/// The indices of the files at these places in the list.
pub open spec fn picked_indices(files: Seq<(usize, String, u64)>, places: Seq<usize>) -> Set<
    usize,
> {
    places.map_values(|place: usize| files[place as int].0).to_set()
}

/// The numbers rise from one to the next, so that none comes twice.
pub open spec fn rising(numbers: Seq<usize>) -> bool {
    forall|i: int, j: int| 0 <= i < j < numbers.len() ==> numbers[i] < numbers[j]
}

/// What comes after a reply: a user who does not choose takes everything, one who picks takes
/// the picked files in order, and one who picks nothing may cancel or pick again.
pub open spec fn choice_follows(
    files: Seq<(usize, String, u64)>,
    prompt: Prompt,
    reply: Reply,
    choice: Choice,
) -> bool {
    match (prompt, reply) {
        (_, Reply::Broken(cause)) => choice is Failed && choice->Failed_0@ == DlErrorView::Torrent(
            broken_prompt(prompt) + cause@,
        ),
        (Prompt::Choose, Reply::YesNo(choose_files)) => choice == if choose_files {
            Choice::Ask(Prompt::Select)
        } else {
            Choice::All
        },
        (Prompt::Select, Reply::Picked(places)) => if places@.len() == 0 {
            choice == Choice::Ask(Prompt::Cancel)
        } else {
            &&& choice is Only
            &&& rising(choice->Only_0@)
            &&& choice->Only_0@.to_set() == picked_indices(files, places@)
        },
        (Prompt::Cancel, Reply::YesNo(cancel)) => if cancel {
            choice is Failed && choice->Failed_0@ == DlErrorView::Torrent(
                "download cancelled by user"@,
            )
        } else {
            choice == Choice::Ask(Prompt::Select)
        },
        _ => false,
    }
}

/// Puts a number in its place, unless it is there.
fn insert_rising(numbers: &mut Vec<usize>, number: usize)
    requires
        rising(old(numbers)@),
    ensures
        rising(final(numbers)@),
        final(numbers)@.to_set() == old(numbers)@.to_set().insert(number),
        final(numbers).len() > 0,
{
    let mut at: usize = 0;
    while at < numbers.len() && numbers[at] < number
        invariant
            at <= numbers.len(),
            forall|i: int| 0 <= i < at ==> numbers@[i] < number,
        decreases numbers.len() - at,
    {
        at = at + 1;
    }
    let ghost before = numbers@;
    if at < numbers.len() && numbers[at] == number {
        proof {
            assert(before.contains(number));
            assert(before.to_set().insert(number) =~= before.to_set());
        }
        return;
    }
    numbers.insert(at, number);
    proof {
        let after = numbers@;
        assert forall|n: usize| after.contains(n) <==> before.contains(n) || n == number by {
            if after.contains(n) && n != number {
                let i = choose|i: int| 0 <= i < after.len() && after[i] == n;
                if i < at {
                    assert(before[i] == n);
                } else {
                    assert(before[i - 1] == n);
                }
            }
            if before.contains(n) {
                let i = choose|i: int| 0 <= i < before.len() && before[i] == n;
                if i < at {
                    assert(after[i] == n);
                } else {
                    assert(after[i + 1] == n);
                }
            }
            assert(after[at as int] == number);
        }
        assert(after.to_set() =~= before.to_set().insert(number));
    }
}

fn pick_files(files: &Vec<(usize, String, u64)>, places: &Vec<usize>) -> (r: Vec<usize>)
    requires
        forall|i: int| 0 <= i < places@.len() ==> #[trigger] places@[i] < files.len(),
    ensures
        rising(r@),
        r@.to_set() == picked_indices(files@, places@),
{
    let mut indices: Vec<usize> = Vec::new();
    let mut i: usize = 0;
    proof {
        assert(indices@.to_set() =~= picked_indices(files@, places@.take(0)));
    }
    while i < places.len()
        invariant
            i <= places.len(),
            forall|k: int| 0 <= k < places@.len() ==> #[trigger] places@[k] < files.len(),
            rising(indices@),
            indices@.to_set() == picked_indices(files@, places@.take(i as int)),
        decreases places.len() - i,
    {
        let place: usize = places[i];
        let index: usize = files[place].0;
        insert_rising(&mut indices, index);
        proof {
            lemma_one_more_pick(files@, places@, i as int);
        }
        i = i + 1;
    }
    proof {
        assert(places@.take(places@.len() as int) =~= places@);
    }
    indices
}

proof fn lemma_one_more_pick(files: Seq<(usize, String, u64)>, places: Seq<usize>, i: int)
    requires
        0 <= i < places.len(),
    ensures
        picked_indices(files, places.take(i + 1)) == picked_indices(files, places.take(i)).insert(
            files[places[i] as int].0,
        ),
{
    let index_of = |place: usize| files[place as int].0;
    let fewer = places.take(i).map_values(index_of);
    let more = places.take(i + 1).map_values(index_of);
    assert(more =~= fewer.push(index_of(places[i])));
    assert forall|n: usize| more.contains(n) <==> fewer.contains(n) || n == index_of(places[i]) by {
        if fewer.contains(n) {
            let k = choose|k: int| 0 <= k < fewer.len() && fewer[k] == n;
            assert(more[k] == n);
        }
        assert(more[i] == index_of(places[i]));
    }
    assert(more.to_set() =~= fewer.to_set().insert(index_of(places[i])));
}

/// What comes after a reply to a question about the files of a torrent.
pub fn select_torrent_files_interactive(
    files: &Vec<(usize, String, u64)>,
    prompt: Prompt,
    reply: Reply,
) -> (r: Choice)
    requires
        answers(prompt, reply, files.len() as nat),
    ensures
        choice_follows(files@, prompt, reply, r),
{
    match reply {
        Reply::Broken(cause) => {
            let lead: &'static str = match prompt {
                Prompt::Choose => "interactive prompt failed: ",
                Prompt::Select => "interactive selection failed: ",
                Prompt::Cancel => "interactive cancel prompt failed: ",
            };
            Choice::Failed(DlError::Torrent(error::joined(lead, &cause)))
        },
        Reply::YesNo(yes) => match prompt {
            Prompt::Choose => if yes {
                Choice::Ask(Prompt::Select)
            } else {
                Choice::All
            },
            _ => if yes {
                Choice::Failed(DlError::Torrent("download cancelled by user".to_string()))
            } else {
                Choice::Ask(Prompt::Select)
            },
        },
        Reply::Picked(places) => if places.len() == 0 {
            Choice::Ask(Prompt::Cancel)
        } else {
            Choice::Only(pick_files(files, &places))
        },
    }
}

/// A selection is never empty, and the picks alone decide it, whatever order they come in.
pub proof fn law_selection_is_of_the_picks(
    files: Seq<(usize, String, u64)>,
    one: Vec<usize>,
    other: Vec<usize>,
    first: Vec<usize>,
    second: Vec<usize>,
)
    requires
        one@.len() > 0,
        picked_indices(files, one@) == picked_indices(files, other@),
        choice_follows(files, Prompt::Select, Reply::Picked(one), Choice::Only(first)),
        choice_follows(files, Prompt::Select, Reply::Picked(other), Choice::Only(second)),
    ensures
        first@.len() > 0,
        first@ == second@,
{
    let index_of = |place: usize| files[place as int].0;
    let indices = one@.map_values(index_of);
    assert(indices[0] == index_of(one@[0]));
    assert(indices.to_set().contains(indices[0]));
    assert(first@.to_set().contains(indices[0]));
    lemma_rising_is_unique(first@, second@);
}

/// Numbers that rise are told by the set of them.
proof fn lemma_rising_is_unique(a: Seq<usize>, b: Seq<usize>)
    requires
        rising(a),
        rising(b),
        a.to_set() == b.to_set(),
    ensures
        a == b,
    decreases a.len(),
{
    assert forall|n: usize| a.contains(n) <==> b.contains(n) by {
        assert(a.to_set().contains(n) == a.contains(n));
        assert(b.to_set().contains(n) == b.contains(n));
    }
    if a.len() == 0 {
        if b.len() > 0 {
            assert(b.contains(b[0]));
        }
        assert(a =~= b);
    } else {
        assert(a.contains(a[0]));
        assert(a.contains(a.last()));
        assert(b.contains(a.last()));
        assert(b.contains(b.last()));
        assert(a.last() == b.last());
        let front = a.drop_last();
        let other = b.drop_last();
        assert forall|n: usize| front.contains(n) <==> other.contains(n) by {
            if front.contains(n) {
                let i = choose|i: int| 0 <= i < front.len() && front[i] == n;
                assert(a[i] == n);
                assert(b.contains(n));
                let j = choose|j: int| 0 <= j < b.len() && b[j] == n;
                assert(other[j] == n);
            }
            if other.contains(n) {
                let i = choose|i: int| 0 <= i < other.len() && other[i] == n;
                assert(b[i] == n);
                assert(a.contains(n));
                let j = choose|j: int| 0 <= j < a.len() && a[j] == n;
                assert(front[j] == n);
            }
        }
        assert(front.to_set() =~= other.to_set());
        lemma_rising_is_unique(front, other);
        assert(a =~= front.push(a.last()));
        assert(b =~= other.push(b.last()));
    }
}

/// What the program says at the end of a download.
pub fn summary_line(summary: &DownloadSummary) -> (r: String)
    ensures
        r@ == "downloaded "@ + text::decimal(summary.downloaded_bytes as nat) + " bytes to "@
            + summary.output_path@,
{
    let mut line: String = "downloaded ".to_string();
    text::append_decimal(&mut line, summary.downloaded_bytes);
    line.append(" bytes to ");
    line.append(&summary.output_path);
    line
}

/// A source is a torrent if that is said, if it begins as a magnet link, or if it ends in
/// `.torrent` and begins as no URL; in no other case.
pub proof fn law_torrents_are_told_by_their_ends(source: Seq<char>)
    ensures
        ({
            let link = source.len() >= 7 && source.take(7) == seq![
                'm',
                'a',
                'g',
                'n',
                'e',
                't',
                ':',
            ];
            let file = source.len() >= 8 && source.skip(source.len() - 8) == seq![
                '.',
                't',
                'o',
                'r',
                'r',
                'e',
                'n',
                't',
            ];
            let plain = source.len() >= 7 && source.take(7) == seq![
                'h',
                't',
                't',
                'p',
                ':',
                '/',
                '/',
            ];
            let secure = source.len() >= 8 && source.take(8) == seq![
                'h',
                't',
                't',
                'p',
                's',
                ':',
                '/',
                '/',
            ];
            &&& names_torrent(source, true)
            &&& names_torrent(source, false) <==> link || (file && !plain && !secure)
        }),
{
    reveal_strlit("magnet:");
    reveal_strlit("http://");
    reveal_strlit("https://");
    reveal_strlit(".torrent");
    assert("magnet:"@ =~= seq!['m', 'a', 'g', 'n', 'e', 't', ':']);
    assert("http://"@ =~= seq!['h', 't', 't', 'p', ':', '/', '/']);
    assert("https://"@ =~= seq!['h', 't', 't', 'p', 's', ':', '/', '/']);
    assert(".torrent"@ =~= seq!['.', 't', 'o', 'r', 'r', 'e', 'n', 't']);
    if source.len() >= 7 {
        assert(source.take(7) =~= source.subrange(0, 7));
    }
    if source.len() >= 8 {
        assert(source.take(8) =~= source.subrange(0, 8));
        assert(source.skip(source.len() - 8) =~= source.subrange(
            source.len() - 8,
            source.len() as int,
        ));
    }
}

/// A path ends in its last segment, and a path that ends in a slash, or none, has the name
/// `download.bin`, whatever comes before.
pub proof fn law_last_segment_names_the_file(front: Seq<Seq<char>>, name: Seq<char>)
    requires
        name.len() > 0,
    ensures
        output_name(Some(front.push(name))) == name,
        output_name(Some(front.push(Seq::empty()))) == "download.bin"@,
        output_name(Some(Seq::empty())) == "download.bin"@,
        output_name(None) == "download.bin"@,
{
}

/// The letters after a number stand for 2^10, 2^20 and 2^30 bytes, and no other stands for any.
pub proof fn law_letters_are_powers_of_1024(n: u64, letter: char)
    ensures
        letter == 'k' || letter == 'K' ==> size_multiplier(letter) == 1024,
        letter == 'm' || letter == 'M' ==> size_multiplier(letter) == 1024 * 1024,
        letter == 'g' || letter == 'G' ==> size_multiplier(letter) == 1024 * 1024 * 1024,
        n * 1024 <= u64::MAX && (letter == 'k' || letter == 'K') ==> size_value(
            text::decimal(n as nat).push(letter),
        ) == Ok::<int, Seq<char>>(n * 1024),
        n * 1_048_576 <= u64::MAX && (letter == 'm' || letter == 'M') ==> size_value(
            text::decimal(n as nat).push(letter),
        ) == Ok::<int, Seq<char>>(n * 1_048_576),
        n * 1_073_741_824 <= u64::MAX && (letter == 'g' || letter == 'G') ==> size_value(
            text::decimal(n as nat).push(letter),
        ) == Ok::<int, Seq<char>>(n * 1_073_741_824),
        !text::is_digit(letter) && !text::is_space(letter) && !seq![
            'k',
            'K',
            'm',
            'M',
            'g',
            'G',
        ].contains(letter) ==> size_value(text::decimal(n as nat).push(letter)) is Err,
{
    let letters = seq!['k', 'K', 'm', 'M', 'g', 'G'];
    assert(letters[0] == 'k' && letters[1] == 'K' && letters[2] == 'm' && letters[3] == 'M'
        && letters[4] == 'g' && letters[5] == 'G');
    if size_multiplier(letter) > 1 {
        law_suffix_multiplies(n, letter);
    } else if !text::is_digit(letter) && !text::is_space(letter) {
        let digits = text::decimal(n as nat);
        let size = digits.push(letter);
        text::lemma_decimal_digits(n as nat);
        assert(text::is_digit(digits[0]));
        lemma_trimmed(size);
        text::law_numbers_read_as_they_are_written(size);
    }
}

/// White space around a size changes nothing but the text of an error, and a size of white space
/// alone is refused.
pub proof fn law_space_around_a_size_is_no_matter(size: Seq<char>)
    ensures
        size_value(text::trimmed(size)) is Ok <==> size_value(size) is Ok,
        size_value(size) is Ok ==> size_value(text::trimmed(size)) == size_value(size),
        text::trimmed(size).len() == 0 ==> size_value(size) == Err::<int, Seq<char>>(
            "size must not be empty"@,
        ),
{
    text::law_trimming_takes_the_ends(size);
    let inner = text::trimmed(size);
    if inner.len() > 0 {
        lemma_trimmed(inner);
    }
}

/// The error on a size tells the size as it was given.
pub proof fn law_refused_size_is_told(size: Seq<char>)
    requires
        size_value(size) is Err,
        text::trimmed(size).len() > 0,
    ensures
        ("invalid size `"@ + size + "`: "@).is_prefix_of(size_value(size)->Err_0),
{
    let lead = "invalid size `"@ + size + "`: "@;
    assert(size_value(size)->Err_0.take(lead.len() as int) =~= lead);
}

/// A file is offered by its name, and behind it its size in brackets.
pub proof fn law_offers_tell_name_and_size(name: Seq<char>, size: u64)
    ensures
        offer(name, size).take(name.len() as int) == name,
        offer(name, size).skip(name.len() as int) == seq![' ', '('] + show::size_text(size as nat)
            + seq![')'],
{
    reveal_strlit(" (");
    reveal_strlit(")");
    let line = offer(name, size);
    assert(line.take(name.len() as int) =~= name);
    assert(line.skip(name.len() as int) =~= seq![' ', '('] + show::size_text(size as nat)
        + seq![')']);
}

/// A selection has each file whose place was picked, and no other.
pub proof fn law_picked_files_are_taken(
    files: Seq<(usize, String, u64)>,
    places: Vec<usize>,
    selection: Vec<usize>,
    index: usize,
)
    requires
        places@.len() > 0,
        choice_follows(files, Prompt::Select, Reply::Picked(places), Choice::Only(selection)),
    ensures
        selection@.contains(index) <==> exists|i: int|
            0 <= i < places@.len() && files[#[trigger] places@[i] as int].0 == index,
        forall|i: int, j: int|
            0 <= i < j < selection@.len() ==> #[trigger] selection@[i] < #[trigger] selection@[j],
{
    let indices = places@.map_values(|place: usize| files[place as int].0);
    assert(selection@.to_set().contains(index) == selection@.contains(index));
    assert(indices.to_set().contains(index) == indices.contains(index));
    if indices.contains(index) {
        let i = choose|i: int| 0 <= i < indices.len() && indices[i] == index;
        assert(files[places@[i] as int].0 == index);
    }
    if exists|i: int| 0 <= i < places@.len() && files[#[trigger] places@[i] as int].0 == index {
        let i = choose|i: int|
            0 <= i < places@.len() && files[#[trigger] places@[i] as int].0 == index;
        assert(indices[i] == index);
    }
}

/// Who does not choose takes all files, who chooses is asked which, who picks none is asked
/// whether to cancel, and who does not cancel is asked again.
pub proof fn law_answers_lead_on(
    files: Seq<(usize, String, u64)>,
    none: Vec<usize>,
    cause: String,
    prompt: Prompt,
    choice: Choice,
)
    requires
        none@.len() == 0,
    ensures
        choice_follows(files, Prompt::Choose, Reply::YesNo(false), choice) <==> choice
            == Choice::All,
        choice_follows(files, Prompt::Choose, Reply::YesNo(true), choice) <==> choice
            == Choice::Ask(Prompt::Select),
        choice_follows(files, Prompt::Select, Reply::Picked(none), choice) <==> choice
            == Choice::Ask(Prompt::Cancel),
        choice_follows(files, Prompt::Cancel, Reply::YesNo(false), choice) <==> choice
            == Choice::Ask(Prompt::Select),
        choice_follows(files, Prompt::Cancel, Reply::YesNo(true), choice) <==> choice is Failed
            && choice->Failed_0@ == DlErrorView::Torrent("download cancelled by user"@),
        choice_follows(files, prompt, Reply::Broken(cause), choice) ==> choice is Failed
            && choice->Failed_0@ is Torrent && choice->Failed_0@->Torrent_0 == (match prompt {
            Prompt::Choose => "interactive prompt failed: "@,
            Prompt::Select => "interactive selection failed: "@,
            Prompt::Cancel => "interactive cancel prompt failed: "@,
        }) + cause@,
{
}

/// A download goes where the arguments say; a torrent that is given no place goes into the
/// current directory.
pub proof fn law_output_is_where_the_arguments_say(
    cli: Cli,
    source: DownloadSource,
    output: String,
)
    requires
        call_ensures(chosen_output, (&cli, &source), output),
    ensures
        cli.output is Some ==> output@ == cli.output->Some_0@,
        cli.output is None && source is Torrent ==> output@ == seq!['.'],
{
    reveal_strlit(".");
    assert("."@ =~= seq!['.']);
}

/// The user is asked only where there is a choice.
pub proof fn law_only_several_files_are_asked_about(count: usize, question: FileQuestion)
    requires
        call_ensures(file_question, (count,), question),
    ensures
        question == FileQuestion::Ask <==> count >= 2,
        question == FileQuestion::NoFiles <==> count == 0,
{
}

/// What is downloaded is what the arguments name, letter for letter: a URL by HTTP, unless it is
/// said to be a torrent.
pub proof fn law_source_is_what_was_named(cli: Cli, source: DownloadSource)
    requires
        call_ensures(classify_source, (&cli,), source),
    ensures
        source is Http ==> source->Http_0@ == cli.source@,
        source is Torrent ==> source->Torrent_0.source@ == cli.source@,
        cli.torrent ==> source is Torrent,
        !cli.torrent && ("http://"@.is_prefix_of(cli.source@) || "https://"@.is_prefix_of(
            cli.source@,
        )) ==> source is Http,
{
    if "http://"@.is_prefix_of(cli.source@) || "https://"@.is_prefix_of(cli.source@) {
        law_urls_are_torrents_only_on_demand(cli.source@, cli.torrent);
    }
}

/// The options are those of the arguments; what is not to be taken up again is said by a switch.
pub proof fn law_options_are_those_of_the_arguments(
    cli: Cli,
    only_files: Option<Vec<usize>>,
    options: DownloadOptions,
)
    requires
        call_ensures(download_options, (&cli, only_files), options),
    ensures
        options.connections == cli.connections,
        options.chunk_size == cli.chunk_size,
        options.resume != cli.no_resume,
        options.overwrite == cli.overwrite,
        options.only_files == only_files,
{
}

/// What is said at the end ends in the path, and tells the bytes before it.
pub proof fn law_last_line_tells_bytes_and_path(summary: DownloadSummary, line: String)
    requires
        call_ensures(summary_line, (&summary,), line),
    ensures
        summary.output_path@.is_suffix_of(line@),
        ("downloaded "@ + text::decimal(summary.downloaded_bytes as nat) + " bytes"@).is_prefix_of(
            line@,
        ),
{
    reveal_strlit(" bytes to ");
    reveal_strlit(" bytes");
    let path = summary.output_path@;
    let front = "downloaded "@ + text::decimal(summary.downloaded_bytes as nat) + " bytes"@;
    assert(line@.skip(line@.len() - path.len()) =~= path);
    assert(line@.take(front.len() as int) =~= front);
}

} // verus!
