use libdl::chunks::{
    build_segments, calculate_dynamic_chunk_size, chunk_count, completed_bytes,
    contiguous_completed_bytes, count_completed, segment_len, Segment, DEFAULT_CHUNK_SIZE,
};

#[test]
fn test_calculate_dynamic_chunk_size() {
    // Test very small files (< 10MB)
    assert_eq!(calculate_dynamic_chunk_size(4 * 1024 * 1024, 8), 1 * 1024 * 1024); // 4MB / 16 = 256KB -> capped at min 1MB
    assert_eq!(calculate_dynamic_chunk_size(4 * 1024 * 1024, 1), 2 * 1024 * 1024); // 4MB / 2 = 2MB

    // Test small-to-medium files (10MB - 100MB)
    assert_eq!(calculate_dynamic_chunk_size(40 * 1024 * 1024, 8), 4 * 1024 * 1024); // 40MB / 16 = 2.5MB -> capped at min 4MB
    assert_eq!(calculate_dynamic_chunk_size(80 * 1024 * 1024, 4), 10 * 1024 * 1024); // 80MB / 8 = 10MB

    // Test medium files (100MB - 1GB)
    assert_eq!(calculate_dynamic_chunk_size(500 * 1024 * 1024, 8), 32000 * 1024); // 500MB / 16 = 31.25MB (which is 32000 KiB)

    // Test large files (1GB - 10GB)
    assert_eq!(calculate_dynamic_chunk_size(4 * 1024 * 1024 * 1024, 8), 256 * 1024 * 1024); // 4GB / 16 = 256MB

    // Test very large files (>= 10GB)
    assert_eq!(calculate_dynamic_chunk_size(10 * 1024 * 1024 * 1024, 8), 640 * 1024 * 1024); // 10GB / 16 = 640MB
    assert_eq!(calculate_dynamic_chunk_size(20 * 1024 * 1024 * 1024, 8), 1 * 1024 * 1024 * 1024); // 20GB / 16 = 1.25GB -> capped at max 1GB
}

#[test]
fn dynamic_chunk_size_edges() {
    let mib = 1024 * 1024;
    assert_eq!(calculate_dynamic_chunk_size(0, 0), mib);
    assert_eq!(calculate_dynamic_chunk_size(9 * mib, 0), 4608 * 1024);
    assert_eq!(calculate_dynamic_chunk_size(10 * mib - 1, 1), 5 * mib - 1);
    assert_eq!(calculate_dynamic_chunk_size(10 * mib, 1), 5 * mib);
    assert_eq!(calculate_dynamic_chunk_size(99 * mib, 1), 25 * mib);
    assert_eq!(calculate_dynamic_chunk_size(100 * mib, 64), 16 * mib);
    assert_eq!(calculate_dynamic_chunk_size(1024 * mib - 1, 1), 128 * mib);
    assert_eq!(calculate_dynamic_chunk_size(1024 * mib, 1), 512 * mib);
    assert_eq!(calculate_dynamic_chunk_size(u64::MAX, usize::MAX), 256 * mib);
    assert_eq!(calculate_dynamic_chunk_size(u64::MAX, 1), 1024 * mib);
}

#[test]
fn larger_files_get_no_smaller_chunks() {
    let mut last = 0;
    for exponent in 0..64 {
        let size = calculate_dynamic_chunk_size(1 << exponent, 8);
        assert!(size >= last);
        last = size;
    }
}

#[test]
fn more_connections_get_no_larger_chunks() {
    let mut last = u64::MAX;
    for connections in 0..200 {
        let size = calculate_dynamic_chunk_size(3_000_000_000, connections);
        assert!(size <= last);
        last = size;
    }
}

#[test]
fn two_chunks_for_each_connection() {
    let total = 500 * 1024 * 1024;
    let size = calculate_dynamic_chunk_size(total, 8);
    assert_eq!(chunk_count(total, size), 16);
}

#[test]
fn chunks_of_a_file() {
    assert_eq!(DEFAULT_CHUNK_SIZE, 2 * 1024 * 1024);
    assert_eq!(chunk_count(0, 10), 0);
    assert_eq!(chunk_count(1, 10), 1);
    assert_eq!(chunk_count(10, 10), 1);
    assert_eq!(chunk_count(11, 10), 2);
    assert_eq!(chunk_count(u64::MAX, 1), u64::MAX as usize);
    assert_eq!(segment_len(0, 25, 10), 10);
    assert_eq!(segment_len(2, 25, 10), 5);
    assert_eq!(segment_len(3, 25, 10), 0);
    assert_eq!(segment_len(usize::MAX, u64::MAX, u64::MAX), 0);
}

#[test]
fn missing_segments_in_order() {
    let segments = build_segments(25, 10, &vec![false, true, false]);
    assert_eq!(
        segments,
        vec![
            Segment { index: 0, start: 0, end: 9 },
            Segment { index: 2, start: 20, end: 24 },
        ]
    );
    assert_eq!(segments[0].len(), 10);
    assert_eq!(segments[1].len(), 5);
    assert_eq!(build_segments(25, 10, &vec![true, true, true]), vec![]);
    assert_eq!(build_segments(0, 10, &vec![]), vec![]);
}

#[test]
fn complete_and_missing_bytes_make_the_file() {
    for flags in 0..8_u32 {
        let completed: Vec<bool> = (0..3).map(|bit| flags >> bit & 1 == 1).collect();
        let missing: u64 = build_segments(25, 10, &completed).iter().map(|s| s.len()).sum();
        assert_eq!(completed_bytes(&completed, 25, 10) + missing, 25);
        assert_eq!(count_completed(&completed), flags.count_ones() as usize);
    }
}

#[test]
fn every_byte_lies_in_one_segment() {
    let mut hits = [0; 25];
    for segment in build_segments(25, 10, &vec![false; 3]) {
        for at in segment.start..=segment.end {
            hits[at as usize] += 1;
        }
    }
    assert_eq!(hits, [1; 25]);
}

#[test]
fn kept_bytes_end_at_the_first_gap() {
    assert_eq!(contiguous_completed_bytes(&[], 25, 10), 0);
    assert_eq!(contiguous_completed_bytes(&[false, true, true], 25, 10), 0);
    assert_eq!(contiguous_completed_bytes(&[true, false, true], 25, 10), 10);
    assert_eq!(contiguous_completed_bytes(&[true, true, false], 25, 10), 20);
    assert_eq!(contiguous_completed_bytes(&[true, true, true], 25, 10), 25);
    assert_eq!(contiguous_completed_bytes(&[true; 9], 25, 10), 25);
    assert_eq!(completed_bytes(&vec![true, false, true], 25, 10), 15);
}

#[test]
fn written_segments_make_the_served_file() {
    let served: Vec<u8> = (0..25).collect();
    let mut file = vec![0_u8; 25];
    let mut completed = vec![false; 3];
    for segment in build_segments(25, 10, &completed.clone()) {
        let (start, end) = (segment.start as usize, segment.end as usize + 1);
        file[start..end].copy_from_slice(&served[start..end]);
        completed[segment.index] = true;
        let kept = contiguous_completed_bytes(&completed, 25, 10) as usize;
        assert_eq!(file[..kept], served[..kept]);
    }
    assert_eq!(file, served);
}
