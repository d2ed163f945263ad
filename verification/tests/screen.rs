use libdl::show::{
    eta_text, format_bytes, format_duration, remaining_bytes, render_progress, speed_text,
    status_message, RenderUpdate, Speed, SpeedTracker,
};
use libdl::types::{DownloadKind, DownloadPhase, DownloadProgress};

fn in_floating_point(bytes: u64) -> String {
    let units = ["B", "KiB", "MiB", "GiB", "TiB"];
    let mut size = bytes as f64;
    let mut unit = 0;
    while size >= 1024.0 && unit < units.len() - 1 {
        size /= 1024.0;
        unit += 1;
    }
    format!("{size:.1} {}", units[unit])
}

#[test]
fn sizes_in_words() {
    assert_eq!(format_bytes(0), "0.0 B");
    assert_eq!(format_bytes(1023), "1023.0 B");
    assert_eq!(format_bytes(1024), "1.0 KiB");
    assert_eq!(format_bytes(1536), "1.5 KiB");
    assert_eq!(format_bytes(1024 * 1024 - 1), "1024.0 KiB");
    assert_eq!(format_bytes(5 * 1024 * 1024 * 1024), "5.0 GiB");
    assert_eq!(format_bytes(u64::MAX), "16777216.0 TiB");
}

#[test]
fn sizes_are_those_of_double_precision() {
    let mut sizes: Vec<u64> = vec![u64::MAX, u64::MAX - 1024, 9007199254740993, 9007199254740991];
    for shift in 0..64 {
        let power = 1_u64 << shift;
        for step in [0, 1, 3, 51, 52, 256, 768, 1023, 12345] {
            sizes.push(power.wrapping_add(step));
            sizes.push(power.wrapping_sub(step));
            sizes.push(power.wrapping_mul(2 * step + 1) / 20);
            sizes.push((power / 1024).wrapping_mul(step));
        }
    }
    let mut seed = 1_u64;
    for _ in 0..20000 {
        seed = seed.wrapping_mul(6364136223846793005).wrapping_add(1442695040888963407);
        sizes.push(seed >> (seed >> 58));
    }
    for bytes in sizes {
        assert_eq!(format_bytes(bytes), in_floating_point(bytes), "{bytes}");
    }
}

#[test]
fn durations_in_words() {
    assert_eq!(format_duration(0), "0s");
    assert_eq!(format_duration(59), "59s");
    assert_eq!(format_duration(60), "1m 0s");
    assert_eq!(format_duration(3599), "59m 59s");
    assert_eq!(format_duration(3600), "1h 0m");
    assert_eq!(format_duration(90061), "25h 1m");
    assert_eq!(format_duration(u64::MAX), "5124095576030431h 0m");
}

#[test]
fn speeds_and_times_to_the_end() {
    assert_eq!(speed_text(2048), "2.0 KiB/s");
    assert_eq!(remaining_bytes(Some(10), 4), 6);
    assert_eq!(remaining_bytes(Some(4), 10), 0);
    assert_eq!(remaining_bytes(None, 10), 0);
    assert_eq!(eta_text(false, 100, 5), "--:--:--");
    assert_eq!(eta_text(true, 0, 5), "0s");
    assert_eq!(eta_text(true, 100, 61), "1m 1s");
}

fn report(phase: DownloadPhase, total_bytes: Option<u64>) -> DownloadProgress {
    DownloadProgress {
        kind: DownloadKind::Http,
        phase,
        source: "http://host/file".to_string(),
        output_path: "file.dl".to_string(),
        downloaded_bytes: 2048,
        total_bytes,
        active_workers: 3,
        completed_chunks: None,
        total_chunks: Some(7),
    }
}

#[test]
fn status_lines() {
    let mut progress = report(DownloadPhase::PersistingState, Some(9));
    assert_eq!(status_message(&progress), "http: saving state | workers=3 | file.dl");
    progress.completed_chunks = Some(2);
    progress.kind = DownloadKind::Torrent;
    progress.phase = DownloadPhase::Probing;
    assert_eq!(status_message(&progress), "torrent: probing | workers=3 | chunks=2/7 | file.dl");
    progress.total_chunks = None;
    progress.phase = DownloadPhase::Finalizing;
    assert_eq!(status_message(&progress), "torrent: finalizing | workers=3 | file.dl");
}

#[test]
fn screen_updates() {
    assert_eq!(
        render_progress(&report(DownloadPhase::Downloading, None)),
        RenderUpdate {
            sample: Some(2048),
            length: None,
            position: 2048,
            message: Some("2.0 KiB".to_string()),
            status: "http: downloading | workers=3 | file.dl".to_string(),
            finished: false,
        }
    );
    assert_eq!(
        render_progress(&report(DownloadPhase::Complete, Some(4096))),
        RenderUpdate {
            sample: None,
            length: Some(4096),
            position: 2048,
            message: None,
            status: "http: complete | workers=3 | file.dl".to_string(),
            finished: true,
        }
    );
}

#[test]
fn speed_over_the_window() {
    let second = 1_000_000_000;
    let mut tracker = SpeedTracker::new(3 * second);
    assert_eq!(tracker.current_speed(100 * second), None);
    tracker.add_sample(100 * second, 1000);
    assert_eq!(tracker.current_speed(100 * second), None);
    tracker.add_sample(102 * second, 5000);
    let speed = tracker.current_speed(102 * second);
    assert_eq!(speed, Some(Speed { bytes: 4000, nanos: 2 * second }));
    tracker.add_sample(104 * second, 9000);
    assert_eq!(tracker.history.len(), 2);
    let speed = tracker.current_speed(104 * second);
    assert_eq!(speed, Some(Speed { bytes: 4000, nanos: 2 * second }));
}

#[test]
fn no_speed_after_a_stall_or_from_a_short_span() {
    let second = 1_000_000_000;
    let mut tracker = SpeedTracker::new(30 * second);
    tracker.add_sample(100 * second, 1000);
    tracker.add_sample(100 * second + 9_999_999, 5000);
    assert_eq!(tracker.current_speed(101 * second), None);
    tracker.add_sample(100 * second + 10_000_000, 900);
    let speed = tracker.current_speed(102 * second + 10_000_000);
    assert_eq!(speed, Some(Speed { bytes: 0, nanos: 10_000_000 }));
    assert_eq!(tracker.current_speed(102 * second + 10_000_001), None);
}

#[test]
fn pruning_keeps_the_last_sample() {
    let mut tracker = SpeedTracker::new(10);
    tracker.add_sample(5, 1);
    tracker.add_sample(7, 2);
    // The window reaches back before the clock began, so it does not reach back at all.
    assert_eq!(tracker.history.len(), 1);
    assert_eq!(tracker.history[0], (7, 2));
    tracker.prune(1000);
    assert_eq!(tracker.history.len(), 1);
    let mut tracker = SpeedTracker::new(10);
    tracker.add_sample(100, 1);
    tracker.add_sample(110, 2);
    assert_eq!(tracker.history.len(), 2);
    tracker.prune(111);
    assert_eq!(tracker.history.len(), 1);
}
