use instant_replay::buffer::{
    load_index,
    chunk_id_from_path, parse_chunk_index, saturating_sub_i64, timeline_mark_at,
    timeline_mark_now, BufferMark, ChunkIndex, OpenFragmentMarkInput,
};

fn unix_now_ms() -> i64 {
    std::time::SystemTime::now()
        .duration_since(std::time::UNIX_EPOCH)
        .map(|d| d.as_millis() as i64)
        .unwrap_or(0)
}

fn chunk_path(dir: &str, n: u32) -> String {
    format!("{dir}/chunk_{n:05}.mkv")
}

fn close_chunk(index: &mut ChunkIndex, dir: &str, n: u32, duration_ms: u64) -> Vec<String> {
    index.on_fragment_closed(chunk_path(dir, n), Some(duration_ms))
}

#[test]
fn segments_last_seconds_filters_by_timeline() {
    let dir = "/tmp/replay-test-buffer-3";
    let mut idx = ChunkIndex::new(dir.to_string(), 20, 1);
    let p1 = format!("{dir}/chunk_00001.mkv");
    let p2 = format!("{dir}/chunk_00002.mkv");
    idx.on_fragment_closed_at(p1.clone(), Some(1000), 0);
    idx.on_fragment_closed_at(p2.clone(), Some(1000), 1000);
    assert_eq!(idx.entries()[0].id, "00001");
    assert_eq!(idx.entries()[0].buffer_offset_ms, 0);
    assert_eq!(idx.entries()[1].id, "00002");
    assert_eq!(idx.entries()[1].buffer_offset_ms, 1000);

    let segs = idx.segments_last_seconds(1);
    assert_eq!(segs.len(), 1);
    assert_eq!(segs[0], p2);
}

#[test]
fn segments_from_mark_includes_from_chunk() {
    let dir = "/tmp/replay-test-mark";
    let mut idx = ChunkIndex::new(dir.to_string(), 20, 1);
    let p1 = format!("{dir}/chunk_00001.mkv");
    let p2 = format!("{dir}/chunk_00002.mkv");
    let p3 = format!("{dir}/chunk_00003.mkv");
    for (i, p) in [(1i64, &p1), (2, &p2), (3, &p3)] {
        idx.on_fragment_closed_at(p.clone(), Some(1000), i * 1000);
    }
    assert_eq!(idx.entries()[1].id, format!("{:05}", 2));
    let mark = BufferMark {
        chunk_id: "00002".into(),
        offset_ms: 500,
        unix_ms: 2500,
    };
    let segs = idx.segments_from_mark(&mark);
    assert_eq!(segs.len(), 2);
    assert_eq!(segs[0], p2);
    assert_eq!(segs[1], p3);
}

#[test]
fn create_mark_uses_open_fragment() {
    let dir = "/tmp/replay-test-open-frag";
    let mut idx = ChunkIndex::new(dir.to_string(), 20, 2);
    let path = format!("{dir}/chunk_00005.mkv");
    idx.on_fragment_opened(path);
    let mark = idx.create_mark().unwrap();
    assert_eq!(mark.chunk_id, "00005");
}

#[test]
fn timeline_mark_now_open_over_last_finalized() {
    let open = OpenFragmentMarkInput {
        chunk_id: "00010".into(),
        opened_unix_ms: unix_now_ms() - 500,
    };
    let mark = timeline_mark_now(Some(&open), Some("00009")).unwrap();
    assert_eq!(mark.chunk_id, "00010");
    assert!(mark.offset_ms >= 400);
}

#[test]
fn timeline_mark_now_falls_back_to_last_finalized() {
    let mark = timeline_mark_now(None, Some("00007")).unwrap();
    assert_eq!(mark.chunk_id, "00007");
    assert_eq!(mark.offset_ms, 0);
}

#[test]
fn timeline_mark_now_rejects_empty_buffer() {
    assert!(timeline_mark_now(None, None).is_err());
}

#[test]
fn create_mark_rejects_empty_index() {
    let idx = ChunkIndex::new("/tmp/replay-test-empty-mark".to_string(), 20, 2);
    assert!(idx.create_mark().is_err());
}

#[test]
fn rolling_buffer_enforces_max_entries() {
    let dir = "/tmp/replay-buffer-test";
    let mut idx = ChunkIndex::new(dir.to_string(), 20, 5);
    for n in 0..10u32 {
        close_chunk(&mut idx, dir, n, 5000);
    }
    assert!(
        idx.entries().len() <= 6,
        "retention should cap entries (~20s / 5s + 2), got {}",
        idx.entries().len()
    );
}

#[test]
fn mark_and_replay_segments_from_timeline() {
    let dir = "/tmp/replay-buffer-test";
    let mut idx = ChunkIndex::new(dir.to_string(), 30, 5);
    for n in 0..4u32 {
        close_chunk(&mut idx, dir, n, 10_000);
    }
    let mark = BufferMark {
        chunk_id: "00001".into(),
        offset_ms: 3000,
        unix_ms: 2_010_000,
    };
    idx.set_mark(mark);
    let segs = idx.segments_from_buffer_mark();
    assert!(!segs.is_empty(), "mark should yield replay segments");
    let last = idx.segments_last_seconds(10);
    assert!(!last.is_empty(), "replay last should find segments");
}

#[test]
fn snapshot_mark_matches_create_mark_with_open_fragment() {
    let dir = "/tmp/replay-mark-parity-open";
    let mut idx = ChunkIndex::new(dir.to_string(), 20, 2);
    let path = format!("{dir}/chunk_00012.mkv");
    idx.on_fragment_opened(path);

    let from_index = idx.create_mark().unwrap();
    let open = OpenFragmentMarkInput {
        chunk_id: from_index.chunk_id.clone(),
        opened_unix_ms: from_index.unix_ms - from_index.offset_ms as i64,
    };
    let from_snapshot = timeline_mark_at(Some(&open), None, from_index.unix_ms).unwrap();
    assert_eq!(from_index.chunk_id, from_snapshot.chunk_id);
    assert_eq!(from_index.offset_ms, from_snapshot.offset_ms);
    let later = timeline_mark_now(Some(&open), None).unwrap();
    assert_eq!(from_index.chunk_id, later.chunk_id);
    assert!(later.offset_ms >= from_index.offset_ms);
}

#[test]
fn snapshot_mark_matches_create_mark_with_finalized_only() {
    let dir = "/tmp/replay-mark-parity-final";
    let mut idx = ChunkIndex::new(dir.to_string(), 20, 1);
    let p = format!("{dir}/chunk_00003.mkv");
    idx.on_fragment_closed(p, Some(1000));

    let from_index = idx.create_mark().unwrap();
    let from_snapshot = timeline_mark_now(None, Some("00003")).unwrap();
    assert_eq!(from_index.chunk_id, from_snapshot.chunk_id);
    assert_eq!(from_index.offset_ms, 0);
}

// ---------------------------------------------------------------------------

#[test]
fn chunk_id_is_taken_from_file_stem() {
    assert_eq!(chunk_id_from_path("/buf/chunk_00042.mkv"), "00042");
    assert_eq!(chunk_id_from_path("/buf/other_00042.mkv"), "00000");
    assert_eq!(chunk_id_from_path("chunk_7"), "7");
}

#[test]
fn chunk_index_parses_digits_or_zero() {
    assert_eq!(parse_chunk_index("00042"), 42);
    assert_eq!(parse_chunk_index("+17"), 17);
    assert_eq!(parse_chunk_index("abc"), 0);
    assert_eq!(parse_chunk_index(""), 0);
    assert_eq!(parse_chunk_index("4294967296"), 0);
    assert_eq!(parse_chunk_index("4294967295"), u32::MAX);
}

#[test]
fn saturating_sub_clamps() {
    assert_eq!(saturating_sub_i64(10, 3), 7);
    assert_eq!(saturating_sub_i64(i64::MIN, 1), i64::MIN);
    assert_eq!(saturating_sub_i64(i64::MAX, -1), i64::MAX);
}

#[test]
fn timeline_mark_at_exact_offsets() {
    let open = OpenFragmentMarkInput { chunk_id: "00004".into(), opened_unix_ms: 1000 };
    let m = timeline_mark_at(Some(&open), Some("00003"), 1750).unwrap();
    assert_eq!(m, BufferMark { chunk_id: "00004".into(), offset_ms: 750, unix_ms: 1750 });
    let m = timeline_mark_at(None, Some("00003"), 1750).unwrap();
    assert_eq!(m, BufferMark { chunk_id: "00003".into(), offset_ms: 0, unix_ms: 1750 });
    assert_eq!(
        timeline_mark_at(None, None, 5).unwrap_err(),
        "no buffer fragment available to mark"
    );
}

#[test]
fn new_index_geometry() {
    let idx = ChunkIndex::new("/b".to_string(), 20, 0);
    assert_eq!(idx.chunk_duration_ms(), 1000);
    assert_eq!(idx.buffer_path(), "/b");
    assert!(idx.entries().is_empty());
    assert!(idx.mark().is_none());
    assert!(!idx.has_markable_fragment());
}

#[test]
fn closing_evicts_oldest_paths() {
    let dir = "/b";
    let mut idx = ChunkIndex::new(dir.to_string(), 2, 1);
    // max entries: 2 / 1 + 2 = 4
    for n in 0..4u32 {
        assert!(close_chunk(&mut idx, dir, n, 1000).is_empty());
    }
    let evicted = close_chunk(&mut idx, dir, 4, 1000);
    assert_eq!(evicted, vec![chunk_path(dir, 0)]);
    assert_eq!(idx.entries().len(), 4);
    assert_eq!(idx.entries()[0].id, "00001");
    assert_eq!(idx.finalized_duration_ms(), 4000);
}

#[test]
fn open_then_close_same_path_keeps_open_identity() {
    let mut idx = ChunkIndex::new("/b".to_string(), 20, 2);
    idx.on_fragment_closed_at(chunk_path("/b", 1), None, 100);
    idx.on_fragment_opened_at(chunk_path("/b", 2), 5000);
    assert_eq!(idx.open_fragment_elapsed_ms_at(5500), 500);
    assert_eq!(idx.open_fragment_elapsed_ms_at(99_000), 2000);
    assert_eq!(idx.buffer_timeline_now_ms_at(5500), 2500);
    assert_eq!(idx.available_ms_at(5500), 2500);
    idx.on_fragment_closed_at(chunk_path("/b", 2), Some(1800), 9000);
    let e = &idx.entries()[1];
    assert_eq!(e.id, "00002");
    assert_eq!(e.start_unix_ms, 5000);
    assert_eq!(e.buffer_offset_ms, 2000);
    assert_eq!(e.duration_ms, 1800);
    assert_eq!(idx.open_fragment_elapsed_ms_at(9500), 0);
}

#[test]
fn mark_store_and_clear() {
    let mut idx = ChunkIndex::new("/b".to_string(), 20, 2);
    assert!(idx.segments_from_buffer_mark().is_empty());
    idx.on_fragment_closed_at(chunk_path("/b", 3), Some(2000), 0);
    let m = idx.create_mark_at(77).unwrap();
    assert_eq!(m, BufferMark { chunk_id: "00003".into(), offset_ms: 0, unix_ms: 77 });
    idx.set_mark(m.clone());
    assert_eq!(idx.mark(), Some(&m));
    assert_eq!(idx.segments_from_buffer_mark(), vec![chunk_path("/b", 3)]);
    idx.clear_mark();
    assert!(idx.mark().is_none());
}

#[test]
fn last_seconds_at_fixed_time() {
    let mut idx = ChunkIndex::new("/b".to_string(), 60, 2);
    for n in 1..=5u32 {
        idx.on_fragment_closed_at(chunk_path("/b", n), Some(2000), 0);
    }
    // timeline 10 s; last 3 s starts at 7000: chunks ending at 8000 and 10000
    let segs = idx.segments_last_seconds_at(3, 0);
    assert_eq!(segs, vec![chunk_path("/b", 4), chunk_path("/b", 5)]);
    assert_eq!(idx.segments_last_seconds_at(100, 0).len(), 5);
}

#[test]
fn entry_offsets_count_from_session_start_across_eviction() {
    let dir = "/tmp/replay-session-offsets";
    let mut idx = ChunkIndex::new(dir.to_string(), 20, 5);
    for n in 0..8u32 {
        close_chunk(&mut idx, dir, n, 5000);
    }
    assert_eq!(idx.entries().len(), 6);
    assert_eq!(idx.entries().back().unwrap().buffer_offset_ms, 35000);
    assert_eq!(idx.entries().front().unwrap().buffer_offset_ms, 10000);
    for w in 0..idx.entries().len() - 1 {
        assert!(idx.entries()[w].buffer_offset_ms < idx.entries()[w + 1].buffer_offset_ms);
    }
    // retained time is what is available; the session timeline keeps counting
    assert_eq!(idx.available_ms_at(0), 30000);
    assert_eq!(idx.buffer_timeline_now_ms_at(0), 40000);
    // the last 10 s are the two newest chunks
    let last = idx.segments_last_seconds_at(10, 0);
    assert_eq!(last, vec![chunk_path(dir, 6), chunk_path(dir, 7)]);
}

#[test]
fn longer_window_keeps_shorter_window_segments_in_order() {
    let dir = "/tmp/replay-window";
    let mut idx = ChunkIndex::new(dir.to_string(), 60, 2);
    for n in 0..6u32 {
        close_chunk(&mut idx, dir, n, 2000);
    }
    let short = idx.segments_last_seconds_at(3, 0);
    let long = idx.segments_last_seconds_at(7, 0);
    assert_eq!(short, vec![chunk_path(dir, 4), chunk_path(dir, 5)]);
    assert_eq!(long, vec![chunk_path(dir, 2), chunk_path(dir, 3), chunk_path(dir, 4), chunk_path(dir, 5)]);
    assert!(long.ends_with(&short));
}

#[test]
fn zero_padded_chunk_ids_parse_back() {
    for n in [0u32, 7, 42, 12345, 99999, 100000, u32::MAX] {
        assert_eq!(parse_chunk_index(&format!("{n:05}")), n);
        assert_eq!(parse_chunk_index(&chunk_id_from_path(&format!("/b/chunk_{n:05}.mkv"))), n);
    }
}

#[test]
fn restoring_persisted_entries_gives_them_back() {
    let dir = "/tmp/replay-round-trip";
    let mut idx = ChunkIndex::new(dir.to_string(), 20, 2);
    for n in 0..3u32 {
        close_chunk(&mut idx, dir, n, 2000);
    }
    idx.set_mark(BufferMark { chunk_id: "00001".into(), offset_ms: 300, unix_ms: 77 });
    let (entries, mark) = idx.persist_index();
    let mut fresh = ChunkIndex::new(dir.to_string(), 20, 2);
    let saved: Vec<_> = entries.iter().cloned().map(|e| (e, 10u64)).collect();
    assert!(fresh.can_restore(&saved));
    fresh.restore_entries(saved);
    fresh.set_mark(mark.unwrap());
    assert_eq!(fresh.entries().len(), 3);
    for (a, b) in fresh.entries().iter().zip(idx.entries().iter()) {
        assert_eq!((a.id.as_str(), a.path.as_str(), a.buffer_offset_ms, a.duration_ms), (b.id.as_str(), b.path.as_str(), b.buffer_offset_ms, b.duration_ms));
    }
    assert_eq!(fresh.mark(), idx.mark());
    assert_eq!(fresh.buffer_timeline_now_ms_at(0), 6000);
}

#[test]
fn loading_persisted_index_gives_entries_and_mark_back() {
    let dir = "/tmp/replay-load-index";
    let mut idx = ChunkIndex::new(dir.to_string(), 20, 2);
    for n in 0..3u32 {
        close_chunk(&mut idx, dir, n, 2000);
    }
    idx.set_mark(BufferMark { chunk_id: "00002".into(), offset_ms: 150, unix_ms: 9 });
    let (entries, mark) = idx.persist_index();
    let saved: Vec<_> = entries.iter().cloned().map(|e| (e, 4u64)).collect();
    let loaded = load_index(dir.to_string(), 20, 2, saved, mark);
    assert_eq!(loaded.entries().len(), 3);
    for (a, b) in loaded.entries().iter().zip(idx.entries().iter()) {
        assert_eq!((a.id.as_str(), a.path.as_str(), a.start_unix_ms, a.buffer_offset_ms, a.duration_ms), (b.id.as_str(), b.path.as_str(), b.start_unix_ms, b.buffer_offset_ms, b.duration_ms));
    }
    assert_eq!(loaded.mark(), idx.mark());
    // a chunk file that is gone or empty is dropped
    let (entries, _) = idx.persist_index();
    let saved: Vec<_> = entries.iter().cloned().enumerate().map(|(i, e)| (e, if i == 1 { 0 } else { 4 })).collect();
    let loaded = load_index(dir.to_string(), 20, 2, saved, None);
    assert_eq!(loaded.entries().len(), 2);
    assert_eq!(loaded.entries()[1].id, "00002");
    assert!(loaded.mark().is_none());
    assert_eq!(loaded.buffer_timeline_now_ms_at(0), 6000);
}
