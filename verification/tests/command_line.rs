use libdl::chunks::DEFAULT_CHUNK_SIZE;
use libdl::cli::{
    chosen_output, classify_source, default_output_path, download_options, file_offers,
    file_question, name_from_segments, parse_size, select_torrent_files_interactive, summary_line,
    Choice, Cli, FileQuestion, Prompt, Reply,
};
use libdl::error::DlError;
use libdl::paths::determine_download_paths;
use libdl::types::{
    DownloadKind, DownloadOptions, DownloadSource, DownloadSummary, TorrentInput,
};

fn cli(source: &str) -> Cli {
    Cli {
        source: source.to_string(),
        output: None,
        connections: 8,
        chunk_size: 2 * 1024 * 1024,
        no_resume: false,
        overwrite: false,
        torrent: false,
    }
}

fn http(url: &str) -> DownloadSource {
    DownloadSource::Http(url.to_string())
}

fn torrent(source: &str) -> DownloadSource {
    DownloadSource::Torrent(TorrentInput::from_source(source.to_string()))
}

#[test]
fn sources() {
    for url in ["http://h/a.torrent", "https://h/a.torrent", "https://h/a.zip", "ftp://h/a", ""] {
        assert_eq!(classify_source(&cli(url)), http(url));
    }
    for source in ["magnet:?xt=urn:btih:1", "./ubuntu.torrent", "ftp://h/a.torrent"] {
        assert_eq!(classify_source(&cli(source)), torrent(source));
    }
    let mut forced = cli("https://h/a");
    forced.torrent = true;
    assert_eq!(classify_source(&forced), torrent("https://h/a"));
}

#[test]
fn default_outputs() {
    let output = |url: &str| default_output_path(&http(url), url);
    assert_eq!(output("https://example.com/large-file.zip"), "large-file.zip");
    assert_eq!(output("https://example.com/a/b/c.iso?x=1#y"), "c.iso");
    assert_eq!(output("https://example.com/a/../b.iso"), "b.iso");
    assert_eq!(output("https://example.com/with space"), "with%20space");
    assert_eq!(output("https://example.com/dir/"), "download.bin");
    assert_eq!(output("https://example.com"), "download.bin");
    assert_eq!(output("mailto:someone"), "download.bin");
    assert_eq!(output("no url"), "download.bin");
    assert_eq!(default_output_path(&torrent("magnet:?x"), "magnet:?x"), ".");
}

#[test]
fn names_at_the_end_of_a_path() {
    let segments = |parts: &[&str]| Some(parts.iter().map(|part| part.to_string()).collect());
    assert_eq!(name_from_segments(&segments(&["a", "b.zip"])), "b.zip");
    assert_eq!(name_from_segments(&segments(&["a", ""])), "download.bin");
    assert_eq!(name_from_segments(&segments(&[])), "download.bin");
    assert_eq!(name_from_segments(&None), "download.bin");
}

#[test]
fn outputs() {
    let mut arguments = cli("https://example.com/file.zip");
    let source = classify_source(&arguments);
    assert_eq!(chosen_output(&arguments, &source), "file.zip");
    arguments.output = Some("elsewhere".to_string());
    assert_eq!(chosen_output(&arguments, &source), "elsewhere");
}

#[test]
fn options() {
    let mut arguments = cli("u");
    arguments.connections = 16;
    arguments.chunk_size = 7;
    arguments.no_resume = true;
    arguments.overwrite = true;
    let options = download_options(&arguments, Some(vec![0, 2]));
    assert_eq!(options.connections, 16);
    assert_eq!(options.chunk_size, 7);
    assert!(!options.resume);
    assert!(options.overwrite);
    assert_eq!(options.only_files, Some(vec![0, 2]));
    assert_eq!(options.user_agent, "dl/0.1.0");
    assert_eq!(options.metadata_flush_interval, 5_000_000_000);
}

#[test]
fn default_options() {
    let options = DownloadOptions::default();
    assert_eq!(options.connections, 8);
    assert_eq!(options.chunk_size, DEFAULT_CHUNK_SIZE);
    assert!(options.resume);
    assert!(!options.overwrite);
    assert_eq!(options.only_files, None);
    let options = DownloadOptions { connections: 0, chunk_size: 0, ..options }.normalized();
    assert_eq!((options.connections, options.chunk_size), (1, 1));
}

#[test]
fn sizes_with_suffixes() {
    assert_eq!(parse_size("2M"), Ok(DEFAULT_CHUNK_SIZE));
    assert_eq!(parse_size("123"), Ok(123));
    assert_eq!(parse_size(" 4k\n"), Ok(4096));
    assert_eq!(parse_size("4K"), Ok(4096));
    assert_eq!(parse_size("1m"), Ok(1024 * 1024));
    assert_eq!(parse_size("3g"), Ok(3 * 1024 * 1024 * 1024));
    assert_eq!(parse_size("3G"), Ok(3 * 1024 * 1024 * 1024));
    assert_eq!(parse_size("0G"), Ok(0));
    assert_eq!(parse_size("18446744073709551615"), Ok(u64::MAX));
    assert_eq!(parse_size("18446744073709551615K"), Ok(u64::MAX));
    assert_eq!(parse_size("17179869184G"), Ok(u64::MAX));
}

#[test]
fn sizes_that_are_none() {
    let refused = |input: &str| parse_size(input).unwrap_err();
    assert_eq!(refused(""), "size must not be empty");
    assert_eq!(refused(" \t"), "size must not be empty");
    assert_eq!(refused("K"), "invalid size `K`: cannot parse integer from empty string");
    assert_eq!(refused(" 1 K"), "invalid size ` 1 K`: invalid digit found in string");
    assert_eq!(refused("1T"), "invalid size `1T`: invalid digit found in string");
    assert_eq!(refused("-1"), "invalid size `-1`: invalid digit found in string");
    assert_eq!(
        refused("18446744073709551616"),
        "invalid size `18446744073709551616`: number too large to fit in target type"
    );
}

fn files() -> Vec<(usize, String, u64)> {
    vec![
        (4, "four".to_string(), 1536),
        (2, "two".to_string(), 10),
        (9, "nine".to_string(), 0),
        (2, "twin".to_string(), 1),
    ]
}

#[test]
fn questions_about_files() {
    assert_eq!(file_question(0), FileQuestion::NoFiles);
    assert_eq!(file_question(1), FileQuestion::TakeAll);
    assert_eq!(file_question(2), FileQuestion::Ask);
    assert_eq!(
        file_offers(&files()),
        vec!["four (1.5 KiB)", "two (10.0 B)", "nine (0.0 B)", "twin (1.0 B)"]
    );
}

#[test]
fn choosing_files() {
    let next = |prompt, reply| select_torrent_files_interactive(&files(), prompt, reply);
    assert_eq!(next(Prompt::Choose, Reply::YesNo(false)), Choice::All);
    assert_eq!(next(Prompt::Choose, Reply::YesNo(true)), Choice::Ask(Prompt::Select));
    assert_eq!(next(Prompt::Select, Reply::Picked(vec![])), Choice::Ask(Prompt::Cancel));
    assert_eq!(next(Prompt::Cancel, Reply::YesNo(false)), Choice::Ask(Prompt::Select));
    assert_eq!(
        next(Prompt::Cancel, Reply::YesNo(true)),
        Choice::Failed(DlError::Torrent("download cancelled by user".to_string()))
    );
    assert_eq!(next(Prompt::Select, Reply::Picked(vec![2])), Choice::Only(vec![9]));
    assert_eq!(
        next(Prompt::Select, Reply::Picked(vec![0, 1, 2, 3])),
        Choice::Only(vec![2, 4, 9])
    );
    assert_eq!(next(Prompt::Select, Reply::Picked(vec![3, 2, 0])), Choice::Only(vec![2, 4, 9]));
}

#[test]
fn questions_that_cannot_be_asked() {
    let broken = |prompt| {
        select_torrent_files_interactive(&files(), prompt, Reply::Broken("no tty".to_string()))
    };
    let failed = |text: &str| Choice::Failed(DlError::Torrent(text.to_string()));
    assert_eq!(broken(Prompt::Choose), failed("interactive prompt failed: no tty"));
    assert_eq!(broken(Prompt::Select), failed("interactive selection failed: no tty"));
    assert_eq!(broken(Prompt::Cancel), failed("interactive cancel prompt failed: no tty"));
}

#[test]
fn last_words() {
    let summary = DownloadSummary {
        kind: DownloadKind::Http,
        source: "u".to_string(),
        output_path: "dir/file.zip".to_string(),
        total_bytes: 9,
        downloaded_bytes: 12,
        resumed: false,
    };
    assert_eq!(summary_line(&summary), "downloaded 12 bytes to dir/file.zip");
}

#[test]
fn paths_of_a_download() {
    let existing = |names: &[&str]| -> Vec<String> { names.iter().map(|n| n.to_string()).collect() };
    let paths = |overwrite, names: &[&str]| determine_download_paths("file.zip", overwrite, &existing(names));
    let pair = |target: &str| (target.to_string(), format!("{target}.dl"));
    assert_eq!(paths(false, &[]), pair("file.zip"));
    assert_eq!(paths(false, &["other", "file.zip.dl"]), pair("file.zip"));
    assert_eq!(paths(true, &["file.zip"]), pair("file.zip"));
    assert_eq!(paths(false, &["file.zip"]), pair("file.zip.1"));
    assert_eq!(paths(false, &["file.zip", "file.zip.2"]), pair("file.zip.1"));
    assert_eq!(paths(false, &["file.zip.1", "file.zip", "file.zip.2"]), pair("file.zip.3"));
}
