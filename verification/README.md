# libdl

The decisions of a resumable, segmented HTTP downloader, verified with Verus, and the `dl`
program around them.

- `src/` is the library. Nothing in it touches the network, the disk or the clock: it is told what
  happened and says what to do next.
  - `http` is the course of a download: probe, segments or one stream, final name.
  - `probe`, `parallel`, `segments`, `stream` and `single` are its parts; `retry` says when a request is made
    again, `response` and `headers` what a response means, `error` what can go wrong.
  - `crew` and `contents` say what workers and whole downloads leave in the file.
  - `chunks`, `state` and `footer` are what a download in segments is made of and what is saved of
    it; `paths` is where it goes.
  - `cli` and `show` are the command line and the screen; `text` and `types` serve all of them.
- `tests/` runs the library, whole downloads against a server and a disk in memory among them.
- `app/` is the program: requests with reqwest, files with tokio, progress bars with indicatif,
  questions with dialoguer.

What a library function returns is stated in its contract, over spec functions on mathematical
values. What holds of the library as a whole is stated in the proof functions whose names begin
with `law_`.

Three functions call other crates and are trusted instead of proved: how a header value reads as
text, how a status code is printed, and how a text is taken apart as a URL.
