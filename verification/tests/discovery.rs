use instant_replay::buffer::{chunk_file_candidates, BufferMark, ChunkEntry, ChunkIndex};
use instant_replay::devices::list_formats;
use instant_replay::displays::{
    enumerate_displays, primary_fallback, program_monitor, reusable_program_window, MonitorInfo,
    OpenProgramWindow,
};
use instant_replay::capture_select::{
    card_from_contents, card_name_file, discover_capture_devices, sysfs_video_nodes,
};
use instant_replay::device_monitor::{
    device_to_capture, merge_unique, probe_v4l2_sysfs, stable_id_from_device,
};
use instant_replay::devices::CaptureDevice;
use instant_replay::types::VideoFormat;

fn fmt(w: i32, h: i32, fps: i32) -> VideoFormat {
    VideoFormat { width: w, height: h, fps_num: fps, fps_den: 1, pixel_format: "MJPEG".into() }
}

#[test]
fn sysfs_nodes_and_cards() {
    let nodes = sysfs_video_nodes(vec!["video2".into(), "v4l-subdev0".into(), "video10".into(), "video0".into()]);
    assert_eq!(nodes, vec!["/dev/video0", "/dev/video10", "/dev/video2"]);
    assert_eq!(card_name_file("/dev/video0").as_deref(), Some("/sys/class/video4linux/video0/name"));
    assert_eq!(card_name_file("video0"), None);
    assert_eq!(card_from_contents("USB Video: HDMI\n").as_deref(), Some("USB Video: HDMI"));
    assert_eq!(card_from_contents(" \n"), None);
}

#[test]
fn devices_grouped_by_card() {
    let nodes = vec![
        ("/dev/video0".to_string(), Some("Cam B".to_string()), vec![fmt(1280, 720, 30)]),
        ("/dev/video1".to_string(), Some("Cam B".to_string()), vec![fmt(1920, 1080, 30)]),
        ("/dev/video2".to_string(), Some("Cam B".to_string()), vec![fmt(1920, 1080, 30)]),
        ("/dev/video3".to_string(), Some("pispbe".to_string()), vec![fmt(1920, 1080, 60)]),
        ("/dev/video4".to_string(), Some("Cam A".to_string()), vec![fmt(640, 480, 30)]),
        ("/dev/video5".to_string(), Some("Cam C".to_string()), vec![]),
        ("/dev/video6".to_string(), None, vec![fmt(640, 480, 30)]),
    ];
    let devs = discover_capture_devices(nodes);
    let ids: Vec<(&str, &str)> = devs.iter().map(|d| (d.id.as_str(), d.display_name.as_str())).collect();
    assert_eq!(ids, vec![("v4l2:/dev/video4", "Cam A"), ("v4l2:/dev/video1", "Cam B")]);
    assert!(devs.iter().all(|d| d.backend == "v4l2"));
}

#[test]
fn monitor_ids_and_merge() {
    assert_eq!(stable_id_from_device(Some("/dev/video0"), "Cam").0, "v4l2:/dev/video0");
    assert_eq!(stable_id_from_device(Some("/sys/x"), "My Cam-2").0, "v4l2:My_Cam_2");
    assert_eq!(stable_id_from_device(None, "Cam").1, "v4l2");
    assert!(device_to_capture(Some("/dev/video0"), "").is_none());
    assert_eq!(device_to_capture(None, "Cam 1").unwrap().id, "v4l2:Cam_1");
    let sysfs = probe_v4l2_sysfs(vec![
        ("video0".into(), Some("Cam".into())),
        ("media0".into(), None),
        ("video2".into(), None),
    ]);
    assert_eq!(sysfs.len(), 2);
    assert_eq!((sysfs[0].id.as_str(), sysfs[0].display_name.as_str()), ("v4l2:/dev/video0", "Cam"));
    assert_eq!((sysfs[1].id.as_str(), sysfs[1].display_name.as_str()), ("v4l2:/dev/video2", "video2"));
    let mut devices = vec![CaptureDevice { id: "v4l2:/dev/video0".into(), display_name: "Cam".into(), backend: "v4l2".into() }];
    merge_unique(&mut devices, sysfs);
    assert_eq!(devices.len(), 2);
    assert_eq!(devices[1].id, "v4l2:/dev/video2");
}

#[test]
fn chunk_files_from_listing() {
    let c = chunk_file_candidates("/b", vec![
        "chunk_00002.mkv".into(),
        "index.json".into(),
        "chunk_00001.mkv".into(),
        "chunk_00003.mkv.part".into(),
        ".write_probe".into(),
    ]);
    assert_eq!(c, vec!["/b/chunk_00001.mkv", "/b/chunk_00002.mkv"]);
}

#[test]
fn ingest_skips_known_chunks() {
    let mut idx = ChunkIndex::new("/b".into(), 20, 1);
    idx.on_fragment_closed_at("/b/chunk_00001.mkv".into(), Some(1000), 0);
    let evicted = idx.ingest_closed_fragments_at(
        vec!["chunk_00003.mkv".into(), "chunk_00001.mkv".into(), "chunk_00002.mkv".into()],
        50,
    );
    assert!(evicted.is_empty());
    let ids: Vec<&str> = idx.entries().iter().map(|e| e.id.as_str()).collect();
    assert_eq!(ids, vec!["00001", "00002", "00003"]);
    assert_eq!(idx.entries()[2].buffer_offset_ms, 2000);
    assert!(idx.has_entry_id("00002"));
    assert!(!idx.has_entry_id("00009"));
}

#[test]
fn restore_keeps_files_still_on_disk() {
    let e = |id: &str, off: u64| ChunkEntry {
        id: id.into(),
        path: format!("/b/chunk_{id}.mkv"),
        start_unix_ms: 0,
        buffer_offset_ms: off,
        duration_ms: 1000,
    };
    let mut idx = ChunkIndex::new("/b".into(), 20, 1);
    let saved = vec![(e("00001", 0), 64), (e("00002", 1000), 0), (e("00003", 2000), 64)];
    assert!(idx.can_restore(&saved));
    idx.restore_entries(saved);
    let ids: Vec<&str> = idx.entries().iter().map(|e| e.id.as_str()).collect();
    assert_eq!(ids, vec!["00001", "00003"]);
    let huge = vec![(ChunkEntry { duration_ms: u64::MAX, ..e("00004", 0) }, 1)];
    assert!(!idx.can_restore(&huge));
    let (segs, offset) = idx.segments_and_offset_from_mark();
    assert!(segs.is_empty());
    assert_eq!(offset, 0);
}

#[test]
fn display_enumeration() {
    let fb = primary_fallback();
    assert_eq!((fb.id, fb.name.as_str(), fb.primary, fb.width, fb.height), (0, "Primary Display", true, 1920, 1080));
    let monitors = vec![
        MonitorInfo { name: Some("HDMI-1".into()), width: 800, height: 480 },
        MonitorInfo { name: None, width: 1920, height: 1080 },
    ];
    let d = enumerate_displays(&monitors, &Some(Some("HDMI-1".into())));
    assert_eq!(d.len(), 2);
    assert_eq!((d[0].id, d[0].name.as_str(), d[0].primary), (0, "HDMI-1", true));
    assert_eq!((d[1].id, d[1].name.as_str(), d[1].primary, d[1].width), (1, "Display 1", false, 1920));
    let d = enumerate_displays(&monitors, &None);
    assert!(d[0].primary && !d[1].primary);
    let d = enumerate_displays(&monitors, &Some(None));
    assert!(!d[0].primary && d[1].primary);
    assert_eq!(program_monitor(2, 1), Some(1));
    assert_eq!(program_monitor(2, 5), Some(0));
    assert_eq!(program_monitor(0, 0), None);
}

#[test]
fn formats_listing_and_persistence() {
    assert_eq!(list_formats("test", None).len(), 8);
    let mut idx = ChunkIndex::new("/b".into(), 20, 1);
    idx.on_fragment_closed_at("/b/chunk_00001.mkv".into(), Some(1000), 7);
    let m = BufferMark { chunk_id: "00001".into(), offset_ms: 10, unix_ms: 7 };
    idx.set_mark(m.clone());
    let (entries, mark) = idx.persist_index();
    assert_eq!(entries.len(), 1);
    assert_eq!(entries[0].path, "/b/chunk_00001.mkv");
    assert_eq!(mark, Some(m));
    let (segs, offset) = idx.segments_and_offset_from_mark();
    assert_eq!(segs, vec!["/b/chunk_00001.mkv".to_string()]);
    assert_eq!(offset, 10);
}

#[test]
fn program_window_reused_only_for_same_display_and_mode() {
    let open = Some(OpenProgramWindow { display_id: 1, fullscreen: true, handle: 77 });
    assert_eq!(reusable_program_window(&open, 1, true), Some(77));
    assert_eq!(reusable_program_window(&open, 1, false), None);
    assert_eq!(reusable_program_window(&open, 0, true), None);
    assert_eq!(reusable_program_window(&None, 1, true), None);
}
