//! The state of an unfinished download, as it is saved with the file.
use crate::error::{DlError, DlErrorView};
use crate::headers;
use crate::types::DownloadKind;
use vstd::prelude::*;
use vstd::string::*;

verus! {

/// The version of the saved state that this library writes and takes up.
pub const STATE_VERSION: u32 = 1;

/// What is saved of a download while it runs.
#[derive(Debug, PartialEq, Eq)]
pub struct InlineDownloadState {
    pub version: u32,
    pub kind: DownloadKind,
    pub source: String,
    pub total_size: u64,
    pub chunk_size: u64,
    pub completed_chunks: Vec<bool>,
    pub etag: Option<String>,
    pub last_modified: Option<String>,
    pub updated_at_unix_secs: u64,
}

/// An `InlineDownloadState` with the characters of its texts and its flags.
pub struct StateView {
    pub version: u32,
    pub kind: DownloadKind,
    pub source: Seq<char>,
    pub total_size: u64,
    pub chunk_size: u64,
    pub completed_chunks: Seq<bool>,
    pub etag: Option<Seq<char>>,
    pub last_modified: Option<Seq<char>>,
    pub updated_at_unix_secs: u64,
}

impl View for InlineDownloadState {
    type V = StateView;

    open spec fn view(&self) -> StateView {
        StateView {
            version: self.version,
            kind: self.kind,
            source: self.source@,
            total_size: self.total_size,
            chunk_size: self.chunk_size,
            completed_chunks: self.completed_chunks@,
            etag: headers::opt_text(self.etag),
            last_modified: headers::opt_text(self.last_modified),
            updated_at_unix_secs: self.updated_at_unix_secs,
        }
    }
}

/// Two validators contradict each other only if both are there and differ.
pub open spec fn validator_matches(saved: Option<Seq<char>>, current: Option<Seq<char>>) -> bool {
    match (saved, current) {
        (Some(a), Some(b)) => a == b,
        _ => true,
    }
}

/// The saved state is of this file, as the server has it now: the same source and size, and no
/// validator against it.
pub open spec fn same_file(
    state: StateView,
    kind: DownloadKind,
    url: Seq<char>,
    total_size: u64,
    etag: Option<Seq<char>>,
    last_modified: Option<Seq<char>>,
) -> bool {
    &&& state.version == STATE_VERSION
    &&& state.kind == kind
    &&& state.source == url
    &&& state.total_size == total_size
    &&& validator_matches(state.etag, etag)
    &&& validator_matches(state.last_modified, last_modified)
}

/// The saved state is of this file and is cut into chunks of this size.
pub open spec fn compatible(
    state: StateView,
    kind: DownloadKind,
    url: Seq<char>,
    total_size: u64,
    chunk_size: u64,
    etag: Option<Seq<char>>,
    last_modified: Option<Seq<char>>,
) -> bool {
    &&& same_file(state, kind, url, total_size, etag, last_modified)
    &&& state.chunk_size == chunk_size
}

/// Whether two URLs name the same download.
pub fn urls_are_compatible(saved: &String, current: &String) -> (r: bool)
    ensures
        r == (saved@ == current@),
{
    *saved == *current
}

/// Whether a saved validator leaves the current one standing.
pub fn weak_validator_matches(saved: &Option<String>, current: &Option<String>) -> (r: bool)
    ensures
        r == validator_matches(headers::opt_text(*saved), headers::opt_text(*current)),
{
    match (saved, current) {
        (Some(a), Some(b)) => *a == *b,
        _ => true,
    }
}

impl InlineDownloadState {
    /// A state that no time of saving has been put to yet.
    pub fn new(
        kind: DownloadKind,
        source: String,
        total_size: u64,
        chunk_size: u64,
        completed_chunks: Vec<bool>,
        etag: Option<String>,
        last_modified: Option<String>,
    ) -> (r: InlineDownloadState)
        ensures
            r@ == (StateView {
                version: STATE_VERSION,
                kind,
                source: source@,
                total_size,
                chunk_size,
                completed_chunks: completed_chunks@,
                etag: headers::opt_text(etag),
                last_modified: headers::opt_text(last_modified),
                updated_at_unix_secs: 0,
            }),
    {
        InlineDownloadState {
            version: STATE_VERSION,
            kind,
            source,
            total_size,
            chunk_size,
            completed_chunks,
            etag,
            last_modified,
            updated_at_unix_secs: 0,
        }
    }

    /// The state, unless it could not have been saved by a download: a chunk has at least one
    /// byte.
    pub fn checked(self) -> (r: Result<InlineDownloadState, DlError>)
        ensures
            match r {
                Ok(state) => state == self && state.chunk_size > 0,
                Err(error) => self.chunk_size == 0 && error@ == DlErrorView::InvalidState(
                    "chunk size is zero"@,
                ),
            },
    {
        if self.chunk_size == 0 {
            Err(DlError::InvalidState("chunk size is zero".to_string()))
        } else {
            Ok(self)
        }
    }

    /// Whether the state is of this file.
    pub fn is_same_file(
        &self,
        kind: DownloadKind,
        url: &String,
        total_size: u64,
        etag: &Option<String>,
        last_modified: &Option<String>,
    ) -> (r: bool)
        ensures
            r == same_file(
                self@,
                kind,
                url@,
                total_size,
                headers::opt_text(*etag),
                headers::opt_text(*last_modified),
            ),
    {
        self.version == STATE_VERSION && self.kind == kind && urls_are_compatible(&self.source, url)
            && self.total_size == total_size && weak_validator_matches(&self.etag, etag)
            && weak_validator_matches(&self.last_modified, last_modified)
    }

    /// Whether a download of this file in chunks of this size can go on from the state.
    pub fn is_compatible_with(
        &self,
        kind: DownloadKind,
        url: &String,
        total_size: u64,
        chunk_size: u64,
        etag: &Option<String>,
        last_modified: &Option<String>,
    ) -> (r: bool)
        ensures
            r == compatible(
                self@,
                kind,
                url@,
                total_size,
                chunk_size,
                headers::opt_text(*etag),
                headers::opt_text(*last_modified),
            ),
    {
        self.is_same_file(kind, url, total_size, etag, last_modified) && self.chunk_size
            == chunk_size
    }
}

/// A validator matches itself, whatever it is, and nothing else; one that is not there matches
/// anything.
pub proof fn law_validators_match_themselves(saved: Seq<char>, current: Seq<char>)
    ensures
        validator_matches(Some(saved), Some(saved)),
        saved != current ==> !validator_matches(Some(saved), Some(current)),
        validator_matches(None, Some(current)),
        validator_matches(Some(saved), None),
        validator_matches(None, None),
{
}

/// A state is of the file whose source, size and validators it has, and goes on with the chunk
/// size that it has.
pub proof fn law_state_is_of_the_file_that_it_tells_of(
    state: StateView,
    url: Seq<char>,
    total_size: u64,
    chunk_size: u64,
    etag: Option<Seq<char>>,
    last_modified: Option<Seq<char>>,
)
    requires
        state.version == 1,
        state.kind == DownloadKind::Http,
    ensures
        ({
            let of_file = {
                &&& state.source == url
                &&& state.total_size == total_size
                &&& state.etag is None || etag is None || state.etag == etag
                &&& state.last_modified is None || last_modified is None || state.last_modified
                    == last_modified
            };
            let kind = DownloadKind::Http;
            &&& same_file(state, kind, url, total_size, etag, last_modified) <==> of_file
            &&& compatible(state, kind, url, total_size, chunk_size, etag, last_modified)
                <==> of_file && state.chunk_size == chunk_size
        }),
{
}

/// Whatever a validator is, it holds against itself, and one that is missing against any.
pub proof fn law_equal_validators_hold(saved: Option<String>, current: Option<String>, holds: bool)
    requires
        call_ensures(weak_validator_matches, (&saved, &current), holds),
    ensures
        saved is None || current is None ==> holds,
        saved is Some && current is Some ==> (holds <==> saved->Some_0@ == current->Some_0@),
{
}

/// A state is gone on from if each of its fields is that of the download, and a state of another
/// file, another chunk size or another version is not.
pub proof fn law_equal_fields_are_compatible(
    state: InlineDownloadState,
    url: String,
    total_size: u64,
    chunk_size: u64,
    etag: Option<String>,
    last_modified: Option<String>,
    holds: bool,
)
    requires
        call_ensures(
            InlineDownloadState::is_compatible_with,
            (
                &state,
                DownloadKind::Http,
                &url,
                total_size,
                chunk_size,
                &etag,
                &last_modified,
            ),
            holds,
        ),
    ensures
        ({
            &&& state.version == 1
            &&& state.kind == DownloadKind::Http
            &&& state.source@ == url@
            &&& state.total_size == total_size
            &&& state.chunk_size == chunk_size
            &&& headers::opt_text(state.etag) == headers::opt_text(etag)
            &&& headers::opt_text(state.last_modified) == headers::opt_text(last_modified)
        }) ==> holds,
        state.version != 1 || state.kind != DownloadKind::Http || state.source@ != url@
            || state.total_size != total_size || state.chunk_size != chunk_size ==> !holds,
        state.etag is Some && etag is Some && state.etag->Some_0@ != etag->Some_0@ ==> !holds,
        state.last_modified is Some && last_modified is Some && state.last_modified->Some_0@
            != last_modified->Some_0@ ==> !holds,
{
}

/// A new state tells what it was made of, and so is of the file that it was made for.
pub proof fn law_new_state_is_of_its_file(
    source: String,
    total_size: u64,
    chunk_size: u64,
    completed_chunks: Vec<bool>,
    etag: Option<String>,
    last_modified: Option<String>,
    state: InlineDownloadState,
)
    requires
        call_ensures(
            InlineDownloadState::new,
            (
                DownloadKind::Http,
                source,
                total_size,
                chunk_size,
                completed_chunks,
                etag,
                last_modified,
            ),
            state,
        ),
    ensures
        state.source@ == source@,
        state.total_size == total_size,
        state.chunk_size == chunk_size,
        state.completed_chunks@ == completed_chunks@,
        headers::opt_text(state.etag) == headers::opt_text(etag),
        headers::opt_text(state.last_modified) == headers::opt_text(last_modified),
        compatible(
            state@,
            DownloadKind::Http,
            source@,
            total_size,
            chunk_size,
            headers::opt_text(etag),
            headers::opt_text(last_modified),
        ),
{
}

/// A state is refused exactly if its chunks are empty, and else is as it was.
pub proof fn law_states_need_a_chunk_size(
    state: InlineDownloadState,
    r: Result<InlineDownloadState, DlError>,
)
    requires
        call_ensures(InlineDownloadState::checked, (state,), r),
    ensures
        r is Err <==> state.chunk_size == 0,
        r is Ok ==> r->Ok_0 == state,
        r is Err ==> r->Err_0 is InvalidState,
{
}

} // verus!
