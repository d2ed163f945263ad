//! The decisions of a resumable, segmented HTTP downloader: how a transfer is cut into
//! segments, when a request is tried again, what a saved state is worth, and what the
//! command line shows of it.
pub mod chunks;
pub mod cli;
pub mod contents;
pub mod crew;
pub mod error;
pub mod footer;
pub mod headers;
pub mod http;
pub mod parallel;
pub mod paths;
pub mod probe;
pub mod response;
pub mod retry;
pub mod segments;
pub mod show;
pub mod single;
pub mod state;
pub mod stream;
pub mod text;
pub mod types;
