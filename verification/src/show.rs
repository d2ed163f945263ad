//! How a download is shown while it runs.
use crate::headers;
use crate::stream;
use crate::text;
use crate::types::{DownloadKind, DownloadPhase, DownloadProgress, ProgressView};
use std::collections::VecDeque;
use vstd::prelude::*;
use vstd::string::*;

verus! {

/// A time span in words: hours and minutes, minutes and seconds, or seconds.
pub open spec fn duration_text(seconds: u64) -> Seq<char> {
    let hours = seconds as nat / 3600;
    let minutes = seconds as nat % 3600 / 60;
    if hours > 0 {
        text::decimal(hours) + "h "@ + text::decimal(minutes) + "m"@
    } else if minutes > 0 {
        text::decimal(minutes) + "m "@ + text::decimal(seconds as nat % 60) + "s"@
    } else {
        text::decimal(seconds as nat % 60) + "s"@
    }
}

/// A time span, given in whole seconds, in words.
pub fn format_duration(seconds: u64) -> (r: String)
    ensures
        r@ == duration_text(seconds),
{
    let hours: u64 = seconds / 3600;
    let minutes: u64 = (seconds % 3600) / 60;
    let rest: u64 = seconds % 60;
    let mut out: String = String::new();
    if hours > 0 {
        text::append_decimal(&mut out, hours);
        out.append("h ");
        text::append_decimal(&mut out, minutes);
        out.append("m");
        assert(out@ =~= duration_text(seconds));
    } else if minutes > 0 {
        text::append_decimal(&mut out, minutes);
        out.append("m ");
        text::append_decimal(&mut out, rest);
        out.append("s");
        assert(out@ =~= duration_text(seconds));
    } else {
        text::append_decimal(&mut out, rest);
        out.append("s");
        assert(out@ =~= duration_text(seconds));
    }
    out
}

/// The distance between neighbouring whole numbers of this size in binary floating point with 53
/// significant bits.
pub open spec fn spacing(n: nat) -> nat
    decreases n,
{
    if n < 0x20_0000_0000_0000 {
        1
    } else {
        2 * spacing(n / 2)
    }
}

/// `n / unit`, rounded to the nearest whole number, and to the even one of two.
pub open spec fn rounded_quotient(n: nat, unit: nat) -> nat {
    let below = n / unit;
    let rest = n % unit;
    if 2 * rest < unit || (2 * rest == unit && below % 2 == 0) {
        below
    } else {
        below + 1
    }
}

/// The whole number with 53 significant bits that is nearest to `n`.
pub open spec fn nearest_double(n: nat) -> nat {
    if n < 0x20_0000_0000_0000 {
        n
    } else {
        rounded_quotient(n, spacing(n)) * spacing(n)
    }
}

/// The unit that a size is shown in: the largest that it holds at least once.
pub open spec fn unit_name(bytes: nat) -> Seq<char> {
    if bytes < 0x400 {
        "B"@
    } else if bytes < 0x10_0000 {
        "KiB"@
    } else if bytes < 0x4000_0000 {
        "MiB"@
    } else if bytes < 0x100_0000_0000 {
        "GiB"@
    } else {
        "TiB"@
    }
}

/// A size in tenths of its unit, as double precision has it.
pub open spec fn size_tenths(bytes: nat) -> nat {
    let tenfold = nearest_double(bytes) * 10;
    if bytes < 0x400 {
        tenfold
    } else if bytes < 0x10_0000 {
        rounded_quotient(tenfold, 0x400)
    } else if bytes < 0x4000_0000 {
        rounded_quotient(tenfold, 0x10_0000)
    } else if bytes < 0x100_0000_0000 {
        rounded_quotient(tenfold, 0x4000_0000)
    } else {
        rounded_quotient(tenfold, 0x100_0000_0000)
    }
}

/// A size with one decimal and its unit.
pub open spec fn size_text(bytes: nat) -> Seq<char> {
    let tenths = size_tenths(bytes);
    text::decimal(tenths / 10) + "."@ + text::decimal(tenths % 10) + " "@ + unit_name(bytes)
}

fn spacing_of(n: u64) -> (r: u64)
    ensures
        r == spacing(n as nat),
        r >= 1,
        n >= 0x20_0000_0000_0000 ==> r * 0x10_0000_0000_0000 <= n,
        n < 0x20_0000_0000_0000 ==> r == 1,
    decreases n,
{
    if n < 0x20_0000_0000_0000 {
        1
    } else {
        2 * spacing_of(n / 2)
    }
}

fn round_quotient(n: u128, unit: u128) -> (r: u128)
    requires
        0 < unit <= 0x100_0000_0000,
    ensures
        r == rounded_quotient(n as nat, unit as nat),
        r <= n / unit + 1,
{
    let below: u128 = n / unit;
    let rest: u128 = n % unit;
    proof {
        assert(below <= u128::MAX / 2 || unit == 1) by (nonlinear_arith)
            requires
                below == n / unit,
                unit > 0,
                n <= u128::MAX,
        ;
    }
    if 2 * rest < unit || (2 * rest == unit && below % 2 == 0) {
        below
    } else {
        below + 1
    }
}

/// A size with one decimal and its unit.
pub fn format_bytes(bytes: u64) -> (r: String)
    ensures
        r@ == size_text(bytes as nat),
{
    let value: u128 = if bytes < 0x20_0000_0000_0000 {
        bytes as u128
    } else {
        let gap: u64 = spacing_of(bytes);
        proof {
            assert(gap <= 0x1000) by (nonlinear_arith)
                requires
                    gap * 0x10_0000_0000_0000 <= bytes,
                    bytes <= 0xffff_ffff_ffff_ffff,
            ;
        }
        let steps: u128 = round_quotient(bytes as u128, gap as u128);
        proof {
            assert(steps * gap <= 0x1_0000_0000_0000_0000 * 0x1000) by (nonlinear_arith)
                requires
                    0 <= steps <= 0x1_0000_0000_0000_0000,
                    0 <= gap <= 0x1000,
            ;
        }
        steps * gap as u128
    };
    let tenfold: u128 = value * 10;
    let (tenths, name): (u128, &'static str) = if bytes < 0x400 {
        (tenfold, "B")
    } else if bytes < 0x10_0000 {
        (round_quotient(tenfold, 0x400), "KiB")
    } else if bytes < 0x4000_0000 {
        (round_quotient(tenfold, 0x10_0000), "MiB")
    } else if bytes < 0x100_0000_0000 {
        (round_quotient(tenfold, 0x4000_0000), "GiB")
    } else {
        (round_quotient(tenfold, 0x100_0000_0000), "TiB")
    };
    let mut out: String = String::new();
    text::append_decimal(&mut out, (tenths / 10) as u64);
    out.append(".");
    text::append_decimal(&mut out, (tenths % 10) as u64);
    out.append(" ");
    out.append(name);
    assert(out@ =~= size_text(bytes as nat));
    out
}

/// A size is shown to the nearest tenth of its unit: below 2^53 bytes, what is shown is off by half
/// a tenth at most.
pub proof fn law_sizes_are_shown_to_the_nearest_tenth(bytes: u64)
    requires
        bytes < 0x20_0000_0000_0000,
    ensures
        ({
            let tenths = size_tenths(bytes as nat);
            let unit: int = if bytes < 0x400 {
                1
            } else if bytes < 0x10_0000 {
                0x400
            } else if bytes < 0x4000_0000 {
                0x10_0000
            } else if bytes < 0x100_0000_0000 {
                0x4000_0000
            } else {
                0x100_0000_0000
            };
            -unit <= 2 * (tenths * unit - bytes * 10) <= unit
        }),
{
}

pub open spec fn kind_name(kind: DownloadKind) -> Seq<char> {
    match kind {
        DownloadKind::Http => "http"@,
        DownloadKind::Torrent => "torrent"@,
    }
}

pub open spec fn phase_name(phase: DownloadPhase) -> Seq<char> {
    match phase {
        DownloadPhase::Probing => "probing"@,
        DownloadPhase::Downloading => "downloading"@,
        DownloadPhase::PersistingState => "saving state"@,
        DownloadPhase::Finalizing => "finalizing"@,
        DownloadPhase::Complete => "complete"@,
    }
}

/// The status line of a download.
pub open spec fn status_line(progress: ProgressView) -> Seq<char> {
    kind_name(progress.kind) + ": "@ + phase_name(progress.phase) + " | workers="@ + text::decimal(
        progress.active_workers as nat,
    ) + (match (progress.completed_chunks, progress.total_chunks) {
        (Some(completed), Some(total)) => " | chunks="@ + text::decimal(completed as nat) + "/"@
            + text::decimal(total as nat),
        _ => Seq::empty(),
    }) + " | "@ + progress.output_path
}

/// The status line of a download.
pub fn status_message(progress: &DownloadProgress) -> (r: String)
    ensures
        r@ == status_line(progress@),
{
    let kind: &'static str = match progress.kind {
        DownloadKind::Http => "http",
        DownloadKind::Torrent => "torrent",
    };
    let phase: &'static str = match progress.phase {
        DownloadPhase::Probing => "probing",
        DownloadPhase::Downloading => "downloading",
        DownloadPhase::PersistingState => "saving state",
        DownloadPhase::Finalizing => "finalizing",
        DownloadPhase::Complete => "complete",
    };
    let mut out: String = kind.to_string();
    out.append(": ");
    out.append(phase);
    out.append(" | workers=");
    text::append_decimal(&mut out, progress.active_workers as u64);
    if let (Some(completed), Some(total)) = (progress.completed_chunks, progress.total_chunks) {
        let ghost before = out@;
        out.append(" | chunks=");
        text::append_decimal(&mut out, completed as u64);
        out.append("/");
        text::append_decimal(&mut out, total as u64);
        assert(out@ =~= before + (" | chunks="@ + text::decimal(completed as nat) + "/"@
            + text::decimal(total as nat)));
    } else {
        assert(out@ =~= out@ + Seq::<char>::empty());
    }
    out.append(" | ");
    out.append(&progress.output_path);
    out
}

/// Samples of the bytes that were there at certain moments, in nanoseconds, over a window of
/// time.
#[derive(Debug)]
pub struct SpeedTracker {
    /// Moments and bytes, the oldest first.
    pub history: VecDeque<(u64, u64)>,
    pub window: u64,
}

/// The moment before which samples are too old. A window that reaches back further than the
/// clock does not reach back at all.
pub open spec fn oldest_kept(now: u64, window: u64) -> u64 {
    if now < window {
        now
    } else {
        (now - window) as u64
    }
}

/// The samples without those at the front that are too old; the last one is always kept.
pub open spec fn pruned(history: Seq<(u64, u64)>, threshold: u64) -> Seq<(u64, u64)>
    decreases history.len(),
{
    if history.len() > 1 && history[0].0 < threshold {
        pruned(history.drop_first(), threshold)
    } else {
        history
    }
}

/// Nanoseconds after which a download without a sample has stalled.
pub const STALL_AFTER: u64 = 2_000_000_000;

/// Nanoseconds that samples have to span to tell a speed.
pub const SHORTEST_SPAN: u64 = 10_000_000;

/// Bytes that came in a time, in nanoseconds.
#[derive(Clone, Copy, Debug, PartialEq, Eq, Structural)]
pub struct Speed {
    pub bytes: u64,
    pub nanos: u64,
}

/// The speed that the samples tell of at a moment: none with fewer than two samples, after a
/// stall, or from a span that is too short.
pub open spec fn speed_of(history: Seq<(u64, u64)>, now: u64) -> Option<Speed> {
    let oldest = history.first();
    let youngest = history.last();
    let nanos = stream::elapsed(oldest.0, youngest.0);
    if history.len() < 2 || stream::elapsed(youngest.0, now) > STALL_AFTER || nanos
        < SHORTEST_SPAN {
        None
    } else {
        Some(
            Speed {
                bytes: if youngest.1 < oldest.1 {
                    0
                } else {
                    (youngest.1 - oldest.1) as u64
                },
                nanos: nanos as u64,
            },
        )
    }
}

fn span(earlier: u64, later: u64) -> (r: u64)
    ensures
        r == stream::elapsed(earlier, later),
{
    if later < earlier {
        0
    } else {
        later - earlier
    }
}

impl SpeedTracker {
    /// A tracker without samples.
    pub fn new(window: u64) -> (r: SpeedTracker)
        ensures
            r.history@ == Seq::<(u64, u64)>::empty(),
            r.window == window,
    {
        SpeedTracker { history: VecDeque::new(), window }
    }

    /// Takes the bytes that are there at `now` as a sample.
    pub fn add_sample(&mut self, now: u64, bytes: u64)
        ensures
            final(self).window == old(self).window,
            final(self).history@ == pruned(
                old(self).history@.push((now, bytes)),
                oldest_kept(now, old(self).window),
            ),
    {
        self.history.push_back((now, bytes));
        self.prune(now);
    }

    /// Drops the samples that are too old at `now`.
    pub fn prune(&mut self, now: u64)
        ensures
            final(self).window == old(self).window,
            final(self).history@ == pruned(
                old(self).history@,
                oldest_kept(now, old(self).window),
            ),
    {
        let threshold: u64 = if now < self.window {
            now
        } else {
            now - self.window
        };
        while self.history.len() > 1 && self.history[0].0 < threshold
            invariant
                self.window == old(self).window,
                threshold == oldest_kept(now, old(self).window),
                pruned(self.history@, threshold) == pruned(old(self).history@, threshold),
            decreases self.history@.len(),
        {
            let ghost before = self.history@;
            let _ = self.history.pop_front();
            proof {
                assert(self.history@ =~= before.drop_first());
            }
        }
    }

    /// The speed at `now`.
    pub fn current_speed(&mut self, now: u64) -> (r: Option<Speed>)
        ensures
            final(self).window == old(self).window,
            final(self).history@ == pruned(
                old(self).history@,
                oldest_kept(now, old(self).window),
            ),
            r == speed_of(final(self).history@, now),
            r is Some ==> r->Some_0.nanos == passed(final(self).history@) && r->Some_0.bytes == if
                gained(final(self).history@) < 0 {
                0
            } else {
                gained(final(self).history@)
            },
    {
        self.prune(now);
        proof {
            law_speed_counts_every_step(self.history@, now);
        }
        if self.history.len() < 2 {
            return None;
        }
        let oldest: (u64, u64) = self.history[0];
        let youngest: (u64, u64) = self.history[self.history.len() - 1];
        if span(youngest.0, now) > STALL_AFTER {
            return None;
        }
        let nanos: u64 = span(oldest.0, youngest.0);
        if nanos < SHORTEST_SPAN {
            return None;
        }
        let bytes: u64 = if youngest.1 < oldest.1 {
            0
        } else {
            youngest.1 - oldest.1
        };
        Some(Speed { bytes, nanos })
    }
}

/// Pruning keeps the end of the history: what it drops is too old, the last sample stays, and
/// the first that stays is fresh or alone.
pub proof fn law_pruning_keeps_the_fresh_end(history: Seq<(u64, u64)>, threshold: u64)
    requires
        history.len() > 0,
    ensures
        ({
            let kept = pruned(history, threshold);
            let dropped = history.len() - kept.len();
            &&& 0 < kept.len() <= history.len()
            &&& kept == history.skip(dropped)
            &&& forall|i: int| 0 <= i < dropped ==> (#[trigger] history[i]).0 < threshold
            &&& kept.last() == history.last()
            &&& kept.len() == 1 || kept[0].0 >= threshold
        }),
    decreases history.len(),
{
    if history.len() > 1 && history[0].0 < threshold {
        let rest = history.drop_first();
        law_pruning_keeps_the_fresh_end(rest, threshold);
        let kept = pruned(history, threshold);
        let dropped = history.len() - kept.len();
        assert(kept =~= history.skip(dropped));
        assert forall|i: int| 0 <= i < dropped implies (#[trigger] history[i]).0 < threshold by {
            if i > 0 {
                assert(rest[i - 1].0 < threshold);
            }
        }
    } else {
        assert(history.skip(0) =~= history);
    }
}

/// A speed is only told of a time span that is not too short to divide by.
pub proof fn law_speed_has_a_time(history: Seq<(u64, u64)>, now: u64)
    ensures
        speed_of(history, now) is Some ==> speed_of(history, now)->Some_0.nanos >= SHORTEST_SPAN,
{
}

/// How a speed, in bytes per second, is shown.
pub fn speed_text(bytes_per_second: u64) -> (r: String)
    ensures
        r@ == size_text(bytes_per_second as nat) + "/s"@,
{
    let mut out: String = format_bytes(bytes_per_second);
    out.append("/s");
    out
}

/// The bytes that a bar at `position` still lacks; none without a length.
pub fn remaining_bytes(length: Option<u64>, position: u64) -> (r: u64)
    ensures
        r == (match length {
            Some(len) => if len <= position {
                0
            } else {
                (len - position) as u64
            },
            None => 0,
        }),
{
    match length {
        Some(len) => if len <= position {
            0
        } else {
            len - position
        },
        None => 0,
    }
}

/// How the time to the end is shown: unknown below a speed of one byte per second, nothing when
/// nothing is missing, and else the `seconds` that the missing bytes take.
pub open spec fn eta_line(moving: bool, remaining: u64, seconds: u64) -> Seq<char> {
    if !moving {
        "--:--:--"@
    } else if remaining == 0 {
        "0s"@
    } else {
        duration_text(seconds)
    }
}

/// How the time to the end is shown; `moving` tells whether the speed is at least one byte per
/// second.
pub fn eta_text(moving: bool, remaining: u64, seconds: u64) -> (r: String)
    ensures
        r@ == eta_line(moving, remaining, seconds),
{
    if !moving {
        "--:--:--".to_string()
    } else if remaining == 0 {
        "0s".to_string()
    } else {
        format_duration(seconds)
    }
}

/// What a report changes on the screen.
#[derive(Debug, PartialEq, Eq)]
pub struct RenderUpdate {
    /// Bytes to take as a sample of the speed.
    pub sample: Option<u64>,
    /// The length of the bar.
    pub length: Option<u64>,
    /// The position of the bar.
    pub position: u64,
    /// What stands beside a bar without a length.
    pub message: Option<String>,
    /// The status line.
    pub status: String,
    /// The download is over.
    pub finished: bool,
}

/// What a report changes on the screen: while data comes in it is a sample of the speed, and a
/// download of unknown size shows its bytes in words.
pub fn render_progress(progress: &DownloadProgress) -> (r: RenderUpdate)
    ensures
        r.sample == (if progress.phase == DownloadPhase::Downloading {
            Some(progress.downloaded_bytes)
        } else {
            None
        }),
        r.length == progress.total_bytes,
        r.position == progress.downloaded_bytes,
        headers::opt_text(r.message) == (match progress.total_bytes {
            Some(_) => None,
            None => Some(size_text(progress.downloaded_bytes as nat)),
        }),
        r.status@ == status_line(progress@),
        r.finished == (progress.phase == DownloadPhase::Complete),
{
    RenderUpdate {
        sample: if progress.phase == DownloadPhase::Downloading {
            Some(progress.downloaded_bytes)
        } else {
            None
        },
        length: progress.total_bytes,
        position: progress.downloaded_bytes,
        message: match progress.total_bytes {
            Some(_) => None,
            None => Some(format_bytes(progress.downloaded_bytes)),
        },
        status: status_message(progress),
        finished: progress.phase == DownloadPhase::Complete,
    }
}

/// What the samples gained in all: the bytes between each and the next, added up.
pub open spec fn gained(history: Seq<(u64, u64)>) -> int
    decreases history.len(),
{
    if history.len() < 2 {
        0
    } else {
        gained(history.drop_last()) + (history.last().1 - history[history.len() - 2].1)
    }
}

/// The time that the samples took in all: the nanoseconds between each and the next, added up.
pub open spec fn passed(history: Seq<(u64, u64)>) -> int
    decreases history.len(),
{
    if history.len() < 2 {
        0
    } else {
        passed(history.drop_last()) + (history.last().0 - history[history.len() - 2].0)
    }
}

proof fn lemma_steps_add_up(history: Seq<(u64, u64)>)
    requires
        history.len() > 0,
    ensures
        gained(history) == history.last().1 - history.first().1,
        passed(history) == history.last().0 - history.first().0,
    decreases history.len(),
{
    if history.len() >= 2 {
        lemma_steps_add_up(history.drop_last());
    }
}

/// A speed is told of at least two samples that took ten milliseconds or more, the last of them at
/// most two seconds old. It counts all that the samples gained over all the time that they took.
pub proof fn law_speed_counts_every_step(history: Seq<(u64, u64)>, now: u64)
    ensures
        speed_of(history, now) is Some <==> history.len() >= 2 && passed(history) >= 10_000_000
            && now - history.last().0 <= 2_000_000_000,
        speed_of(history, now) is Some ==> {
            let speed = speed_of(history, now)->Some_0;
            &&& speed.nanos == passed(history)
            &&& speed.bytes == if gained(history) < 0 {
                0
            } else {
                gained(history)
            }
        },
{
    if history.len() > 0 {
        lemma_steps_add_up(history);
    }
}

/// Between two samples that follow each other, `bytes` come in every `nanos`.
pub open spec fn grows_at(history: Seq<(u64, u64)>, bytes: nat, nanos: nat) -> bool {
    forall|i: int, j: int|
        0 <= i && j == i + 1 && j < history.len() ==> ((#[trigger] history[j]).1 - (
        #[trigger] history[i]).1) * nanos == bytes * (history[j].0 - history[i].0)
}

/// Samples that grow at a constant rate tell that rate, however many there are.
pub proof fn law_constant_rate_is_told(
    history: Seq<(u64, u64)>,
    now: u64,
    bytes: nat,
    nanos: nat,
)
    requires
        grows_at(history, bytes, nanos),
        nanos > 0,
        speed_of(history, now) is Some,
    ensures
        speed_of(history, now)->Some_0.bytes * nanos == bytes * speed_of(
            history,
            now,
        )->Some_0.nanos,
{
    lemma_constant_rate(history, bytes, nanos);
    lemma_steps_add_up(history);
    let time = passed(history);
    let sum = gained(history);
    assert(sum >= 0) by (nonlinear_arith)
        requires
            sum * nanos == bytes * time,
            bytes >= 0,
            time >= 0,
            nanos > 0,
    ;
}

proof fn lemma_constant_rate(history: Seq<(u64, u64)>, bytes: nat, nanos: nat)
    requires
        grows_at(history, bytes, nanos),
    ensures
        gained(history) * nanos == bytes * passed(history),
    decreases history.len(),
{
    if history.len() >= 2 {
        let front = history.drop_last();
        assert forall|i: int, j: int| 0 <= i && j == i + 1 && j < front.len() implies ((
        #[trigger] front[j]).1 - (#[trigger] front[i]).1) * nanos == bytes * (front[j].0
            - front[i].0) by {
            assert((history[j].1 - history[i].1) * nanos == bytes * (history[j].0
                - history[i].0));
        }
        lemma_constant_rate(front, bytes, nanos);
        let more = history.last().1 - history[history.len() - 2].1;
        let longer = history.last().0 - history[history.len() - 2].0;
        assert(more * nanos == bytes * longer);
        let sum = gained(front);
        let time = passed(front);
        assert((sum + more) * nanos == bytes * (time + longer)) by (nonlinear_arith)
            requires
                sum * nanos == bytes * time,
                more * nanos == bytes * longer,
        ;
    }
}

/// Of more than one sample, none is kept that is older than the window, once the clock has run for
/// as long as the window; and every sample that follows no older one is kept.
pub proof fn law_window_is_kept(history: Seq<(u64, u64)>, now: u64, window: u64)
    requires
        history.len() > 0,
        now >= window,
    ensures
        ({
            let kept = pruned(history, oldest_kept(now, window));
            &&& kept.len() > 1 ==> now - kept[0].0 <= window
            &&& now - history[0].0 <= window ==> kept == history
            &&& kept.len() < history.len() ==> now - history[history.len() - kept.len() - 1].0
                > window
        }),
{
    let kept = pruned(history, oldest_kept(now, window));
    law_pruning_keeps_the_fresh_end(history, oldest_kept(now, window));
    if kept.len() < history.len() {
        assert(history[history.len() - kept.len() - 1].0 < oldest_kept(now, window));
    }
}

/// Before the clock has run for as long as the window, samples are kept only from this moment on.
pub proof fn law_young_clock_keeps_the_last(history: Seq<(u64, u64)>, now: u64, window: u64)
    requires
        history.len() > 0,
        now < window,
        forall|i: int| 0 <= i < history.len() ==> (#[trigger] history[i]).0 < now,
    ensures
        pruned(history, oldest_kept(now, window)) == seq![history.last()],
{
    let kept = pruned(history, oldest_kept(now, window));
    law_pruning_keeps_the_fresh_end(history, oldest_kept(now, window));
    assert(kept[0] == history[history.len() - kept.len()]);
    assert(kept =~= seq![history.last()]);
}

/// A time span is written by its two largest parts: hours with the minutes left over, else minutes
/// with the seconds left over, else seconds.
pub proof fn law_time_spans_are_written_in_parts(hours: nat, minutes: nat, seconds: nat)
    requires
        minutes < 60,
        seconds < 60,
        hours * 3600 + minutes * 60 + seconds <= u64::MAX,
    ensures
        ({
            let written = duration_text((hours * 3600 + minutes * 60 + seconds) as u64);
            &&& hours > 0 ==> written == text::decimal(hours) + "h "@ + text::decimal(minutes)
                + "m"@
            &&& hours == 0 && minutes > 0 ==> written == text::decimal(minutes) + "m "@
                + text::decimal(seconds) + "s"@
            &&& hours == 0 && minutes == 0 ==> written == text::decimal(seconds) + "s"@
        }),
{
}

/// The time to the end is told of what moves, and of nothing else; it is none if nothing is
/// missing.
pub proof fn law_time_to_the_end(remaining: u64, seconds: u64)
    ensures
        eta_line(false, remaining, seconds) == "--:--:--"@,
        eta_line(true, 0, seconds) == "0s"@,
        remaining > 0 ==> eta_line(true, remaining, seconds) == duration_text(seconds),
{
}

/// A whole number has 53 significant bits: it is a multiple of the gap between neighbours of its
/// size, at most half a gap away from what it stands for, and of two that are as near the one
/// whose last bit is nought.
pub proof fn law_nearest_double_has_53_bits(n: u64, bits: nat)
    requires
        vstd::arithmetic::power2::pow2(bits) * 0x10_0000_0000_0000 <= n,
        n < vstd::arithmetic::power2::pow2(bits) * 0x20_0000_0000_0000,
    ensures
        ({
            let gap = vstd::arithmetic::power2::pow2(bits) as int;
            let steps = rounded_quotient(n as nat, gap as nat) as int;
            &&& nearest_double(n as nat) == steps * gap
            &&& -gap <= 2 * (steps * gap - n) <= gap
            &&& 2 * (steps * gap - n) == gap || 2 * (n - steps * gap) == gap ==> steps % 2 == 0
        }),
{
    vstd::arithmetic::power2::lemma_pow2_pos(bits);
    let gap = vstd::arithmetic::power2::pow2(bits) as int;
    lemma_spacing(n as nat, bits);
    lemma_rounding(n as nat, gap as nat);
    if n < 0x20_0000_0000_0000 {
        assert(gap == 1) by {
            if gap >= 2 {
                assert(gap * 0x10_0000_0000_0000 >= 0x20_0000_0000_0000);
            }
        }
        assert(n as int / 1 == n);
    }
}

/// Below 2^53 every whole number is its own nearest.
pub proof fn law_small_numbers_are_exact(n: u64)
    requires
        n <= 0x20_0000_0000_0000,
    ensures
        nearest_double(n as nat) == n,
{
    if n == 0x20_0000_0000_0000 {
        reveal_with_fuel(spacing, 2);
        assert(spacing(n as nat) == 2);
        assert(rounded_quotient(n as nat, 2) == 0x10_0000_0000_0000);
    }
}

proof fn lemma_spacing(n: nat, bits: nat)
    requires
        vstd::arithmetic::power2::pow2(bits) * 0x10_0000_0000_0000 <= n,
        n < vstd::arithmetic::power2::pow2(bits) * 0x20_0000_0000_0000,
    ensures
        spacing(n) == vstd::arithmetic::power2::pow2(bits),
    decreases bits,
{
    vstd::arithmetic::power2::lemma2_to64();
    if bits > 0 {
        vstd::arithmetic::power2::lemma_pow2_unfold(bits);
        vstd::arithmetic::power2::lemma_pow2_pos((bits - 1) as nat);
        lemma_spacing(n / 2, (bits - 1) as nat);
    }
}

proof fn lemma_rounding(n: nat, unit: nat)
    requires
        unit > 0,
    ensures
        ({
            let steps = rounded_quotient(n, unit) as int;
            &&& -unit <= 2 * (steps * unit - n) <= unit
            &&& 2 * (steps * unit - n) == unit || 2 * (n - steps * unit) == unit ==> steps % 2 == 0
        }),
{
    let below = (n / unit) as int;
    let rest = (n % unit) as int;
    vstd::arithmetic::div_mod::lemma_fundamental_div_mod(n as int, unit as int);
    vstd::arithmetic::mul::lemma_mul_is_commutative(unit as int, below);
    assert((below + 1) * unit == below * unit + unit) by (nonlinear_arith);
    assert(n == below * unit + rest);
}

/// A size is written with one decimal, in the largest unit that it holds at least once. What is
/// written is off by half a tenth at most, and by as much only if the tenth is even; from 2^53
/// bytes on, by the gap between doubles besides.
pub proof fn law_sizes_are_written_with_one_decimal(bytes: u64) -> (parts: (nat, nat))
    ensures
        ({
            let (whole, tenth) = parts;
            let (unit, name): (int, Seq<char>) = if bytes < 1_024 {
                (1, "B"@)
            } else if bytes < 1_048_576 {
                (1_024, "KiB"@)
            } else if bytes < 1_073_741_824 {
                (1_048_576, "MiB"@)
            } else if bytes < 1_099_511_627_776 {
                (1_073_741_824, "GiB"@)
            } else {
                (1_099_511_627_776, "TiB"@)
            };
            let off = 2 * ((whole * 10 + tenth) * unit - bytes * 10);
            &&& tenth < 10
            &&& size_text(bytes as nat) == text::decimal(whole) + "."@ + text::decimal(tenth) + " "@
                + name
            &&& bytes < 9_007_199_254_740_992 ==> -unit <= off <= unit
            &&& bytes < 9_007_199_254_740_992 && (off == unit || off == -unit) ==> tenth % 2 == 0
            &&& -unit - 40_960 <= off <= unit + 40_960
        }),
{
    let tenths = size_tenths(bytes as nat);
    if bytes >= 0x20_0000_0000_0000 {
        lemma_double_is_near(bytes);
    }
    let tenfold = nearest_double(bytes as nat) * 10;
    lemma_rounding(tenfold, 0x400);
    lemma_rounding(tenfold, 0x10_0000);
    lemma_rounding(tenfold, 0x4000_0000);
    lemma_rounding(tenfold, 0x100_0000_0000);
    (tenths / 10, tenths % 10)
}

proof fn lemma_double_is_near(n: u64)
    requires
        n >= 0x20_0000_0000_0000,
    ensures
        -2048 <= nearest_double(n as nat) - n <= 2048,
{
    lemma_spacing_bound(n as nat);
    let gap = spacing(n as nat);
    assert(gap <= 4096) by (nonlinear_arith)
        requires
            gap * 0x10_0000_0000_0000 <= n,
            n <= 0xffff_ffff_ffff_ffff,
    ;
    lemma_rounding(n as nat, gap);
}

proof fn lemma_spacing_bound(n: nat)
    ensures
        spacing(n) >= 1,
        n >= 0x20_0000_0000_0000 ==> spacing(n) * 0x10_0000_0000_0000 <= n,
    decreases n,
{
    if n >= 0x20_0000_0000_0000 {
        lemma_spacing_bound(n / 2);
    }
}

/// The status line names what is done, and ends in the file; the chunks stand before the file,
/// if they are known, and change nothing else.
pub proof fn law_status_line_names_its_parts(progress: ProgressView)
    ensures
        ({
            let kind = if progress.kind == DownloadKind::Http {
                "http: "@
            } else {
                "torrent: "@
            };
            let phase = match progress.phase {
                DownloadPhase::Probing => "probing"@,
                DownloadPhase::Downloading => "downloading"@,
                DownloadPhase::PersistingState => "saving state"@,
                DownloadPhase::Finalizing => "finalizing"@,
                DownloadPhase::Complete => "complete"@,
            };
            let front = kind + phase + " | workers="@ + text::decimal(
                progress.active_workers as nat,
            );
            let back = " | "@ + progress.output_path;
            let line = status_line(progress);
            &&& front.is_prefix_of(line)
            &&& back.is_suffix_of(line)
            &&& progress.completed_chunks is None || progress.total_chunks is None ==> line == front
                + back
            &&& progress.completed_chunks is Some && progress.total_chunks is Some ==> line == front
                + " | chunks="@ + text::decimal(progress.completed_chunks->Some_0 as nat) + "/"@
                + text::decimal(progress.total_chunks->Some_0 as nat) + back
        }),
{
    reveal_strlit("http");
    reveal_strlit("torrent");
    reveal_strlit("http: ");
    reveal_strlit("torrent: ");
    reveal_strlit(": ");
    let line = status_line(progress);
    let kind = if progress.kind == DownloadKind::Http {
        "http: "@
    } else {
        "torrent: "@
    };
    assert(kind_name(progress.kind) + ": "@ =~= kind);
    let front = kind + phase_name(progress.phase) + " | workers="@ + text::decimal(
        progress.active_workers as nat,
    );
    let back = " | "@ + progress.output_path;
    if progress.completed_chunks is Some && progress.total_chunks is Some {
        let chunks = " | chunks="@ + text::decimal(progress.completed_chunks->Some_0 as nat) + "/"@
            + text::decimal(progress.total_chunks->Some_0 as nat);
        assert(line =~= front + chunks + back);
        assert(line =~= front + " | chunks="@ + text::decimal(
            progress.completed_chunks->Some_0 as nat,
        ) + "/"@ + text::decimal(progress.total_chunks->Some_0 as nat) + back);
    } else {
        assert(line =~= front + back);
    }
    assert(line.take(front.len() as int) =~= front);
    assert(line.skip(line.len() - back.len()) =~= back);
}

/// The bytes that are there and those that are lacking make the length; past the length, or
/// without one, nothing is lacking.
pub proof fn law_nothing_is_lacking_at_the_end(length: Option<u64>, position: u64, lacking: u64)
    requires
        call_ensures(remaining_bytes, (length, position), lacking),
    ensures
        length is Some && position <= length->Some_0 ==> position + lacking == length->Some_0,
        length is None || length->Some_0 < position ==> lacking == 0,
{
}

/// What is shown of a report is what it tells: its bytes, its length, and whether it is the last;
/// bytes that are coming in are a sample of the speed.
pub proof fn law_screen_shows_the_report(progress: DownloadProgress, update: RenderUpdate)
    requires
        call_ensures(render_progress, (&progress,), update),
    ensures
        update.position == progress.downloaded_bytes,
        update.length == progress.total_bytes,
        update.message is Some <==> progress.total_bytes is None,
        update.message is Some ==> update.message->Some_0@ == size_text(
            progress.downloaded_bytes as nat,
        ),
        update.sample is Some <==> progress.phase == DownloadPhase::Downloading,
        update.sample is Some ==> update.sample->Some_0 == progress.downloaded_bytes,
        update.finished <==> progress.phase == DownloadPhase::Complete,
        update.status@ == status_line(progress@),
{
}

} // verus!
