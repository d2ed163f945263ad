//! The records that a download is described with: its options, its progress, its outcome.
use crate::chunks;
use crate::headers;
use vstd::prelude::*;
use vstd::string::*;

verus! {

#[derive(Clone, Copy, Debug, PartialEq, Eq, Structural)]
pub enum DownloadKind {
    Http,
    Torrent,
}

/// The stages of a download, in the order in which they come.
#[derive(Clone, Copy, Debug, PartialEq, Eq, Structural)]
pub enum DownloadPhase {
    Probing,
    Downloading,
    PersistingState,
    Finalizing,
    Complete,
}

/// A torrent, named by a magnet link, a file or a URL.
#[derive(Debug, PartialEq, Eq)]
pub struct TorrentInput {
    pub source: String,
}

impl TorrentInput {
    pub fn from_source(source: String) -> (r: TorrentInput)
        ensures
            r.source == source,
    {
        TorrentInput { source }
    }
}

/// What is to be downloaded.
#[derive(Debug, PartialEq, Eq)]
pub enum DownloadSource {
    Http(String),
    Torrent(TorrentInput),
}

/// How a download is to be done.
#[derive(Debug)]
pub struct DownloadOptions {
    /// The number of concurrent range requests.
    pub connections: usize,
    /// The chunk size in bytes.
    pub chunk_size: u64,
    /// Whether an unfinished download is taken up again.
    pub resume: bool,
    /// Whether an existing file is replaced.
    pub overwrite: bool,
    pub user_agent: String,
    /// How often the state of the chunks is saved, in nanoseconds.
    pub metadata_flush_interval: u64,
    /// The files of a torrent that are wanted; all of them if there is no list.
    pub only_files: Option<Vec<usize>>,
}

impl Default for DownloadOptions {
    fn default() -> (r: DownloadOptions)
        ensures
            r.connections == 8,
            r.chunk_size == chunks::DEFAULT_CHUNK_SIZE,
            r.resume,
            !r.overwrite,
            r.user_agent@ == "dl/0.1.0"@,
            r.metadata_flush_interval == 5_000_000_000,
            r.only_files is None,
    {
        DownloadOptions {
            connections: 8,
            chunk_size: chunks::DEFAULT_CHUNK_SIZE,
            resume: true,
            overwrite: false,
            user_agent: "dl/0.1.0".to_string(),
            metadata_flush_interval: 5_000_000_000,
            only_files: None,
        }
    }
}

impl DownloadOptions {
    /// The options with at least one connection and at least one byte in a chunk.
    pub fn normalized(self) -> (r: DownloadOptions)
        ensures
            r.connections == (if self.connections == 0 {
                1
            } else {
                self.connections
            }),
            r.chunk_size == (if self.chunk_size == 0 {
                1
            } else {
                self.chunk_size
            }),
            r.resume == self.resume,
            r.overwrite == self.overwrite,
            r.user_agent == self.user_agent,
            r.metadata_flush_interval == self.metadata_flush_interval,
            r.only_files == self.only_files,
    {
        DownloadOptions {
            connections: if self.connections == 0 {
                1
            } else {
                self.connections
            },
            chunk_size: if self.chunk_size == 0 {
                1
            } else {
                self.chunk_size
            },
            resume: self.resume,
            overwrite: self.overwrite,
            user_agent: self.user_agent,
            metadata_flush_interval: self.metadata_flush_interval,
            only_files: self.only_files,
        }
    }
}

/// The outcome of a download.
#[derive(Debug, PartialEq, Eq)]
pub struct DownloadSummary {
    pub kind: DownloadKind,
    pub source: String,
    pub output_path: String,
    pub total_bytes: u64,
    pub downloaded_bytes: u64,
    pub resumed: bool,
}

/// A `DownloadSummary` with the characters of its texts.
pub struct SummaryView {
    pub kind: DownloadKind,
    pub source: Seq<char>,
    pub output_path: Seq<char>,
    pub total_bytes: u64,
    pub downloaded_bytes: u64,
    pub resumed: bool,
}

impl View for DownloadSummary {
    type V = SummaryView;

    open spec fn view(&self) -> SummaryView {
        SummaryView {
            kind: self.kind,
            source: self.source@,
            output_path: self.output_path@,
            total_bytes: self.total_bytes,
            downloaded_bytes: self.downloaded_bytes,
            resumed: self.resumed,
        }
    }
}

/// How far a download has come.
#[derive(Debug, PartialEq, Eq)]
pub struct DownloadProgress {
    pub kind: DownloadKind,
    pub phase: DownloadPhase,
    pub source: String,
    pub output_path: String,
    pub downloaded_bytes: u64,
    pub total_bytes: Option<u64>,
    pub active_workers: usize,
    pub completed_chunks: Option<usize>,
    pub total_chunks: Option<usize>,
}

/// A `DownloadProgress` with the characters of its texts.
pub struct ProgressView {
    pub kind: DownloadKind,
    pub phase: DownloadPhase,
    pub source: Seq<char>,
    pub output_path: Seq<char>,
    pub downloaded_bytes: u64,
    pub total_bytes: Option<u64>,
    pub active_workers: usize,
    pub completed_chunks: Option<usize>,
    pub total_chunks: Option<usize>,
}

impl View for DownloadProgress {
    type V = ProgressView;

    open spec fn view(&self) -> ProgressView {
        ProgressView {
            kind: self.kind,
            phase: self.phase,
            source: self.source@,
            output_path: self.output_path@,
            downloaded_bytes: self.downloaded_bytes,
            total_bytes: self.total_bytes,
            active_workers: self.active_workers,
            completed_chunks: self.completed_chunks,
            total_chunks: self.total_chunks,
        }
    }
}

/// The report on an HTTP download, for whoever listens; without a listener there is none.
pub fn emit_progress(
    listening: bool,
    phase: DownloadPhase,
    source: &str,
    output_path: &str,
    downloaded_bytes: u64,
    total_bytes: Option<u64>,
    active_workers: usize,
    completed_chunks: Option<usize>,
    total_chunks: Option<usize>,
) -> (r: Option<DownloadProgress>)
    ensures
        r is Some <==> listening,
        r is Some ==> r->Some_0@ == (ProgressView {
            kind: DownloadKind::Http,
            phase,
            source: source@,
            output_path: output_path@,
            downloaded_bytes,
            total_bytes,
            active_workers,
            completed_chunks,
            total_chunks,
        }),
{
    if listening {
        Some(
            DownloadProgress {
                kind: DownloadKind::Http,
                phase,
                source: source.to_string(),
                output_path: output_path.to_string(),
                downloaded_bytes,
                total_bytes,
                active_workers,
                completed_chunks,
                total_chunks,
            },
        )
    } else {
        None
    }
}

/// A copy of an optional text.
pub(crate) fn copy_text(value: &Option<String>) -> (r: Option<String>)
    ensures
        headers::opt_text(r) == headers::opt_text(*value),
{
    match value {
        Some(text) => Some(text.clone()),
        None => None,
    }
}

/// Options that can be used have at least one connection and chunks of at least one byte; what is
/// so already stays as it is.
pub proof fn law_usable_options_stay(options: DownloadOptions, usable: DownloadOptions)
    requires
        call_ensures(DownloadOptions::normalized, (options,), usable),
    ensures
        usable.connections >= 1,
        usable.chunk_size >= 1,
        options.connections >= 1 ==> usable.connections == options.connections,
        options.chunk_size >= 1 ==> usable.chunk_size == options.chunk_size,
        options.connections == 0 ==> usable.connections == 1,
        options.chunk_size == 0 ==> usable.chunk_size == 1,
        usable.resume == options.resume,
        usable.overwrite == options.overwrite,
{
}

} // verus!
