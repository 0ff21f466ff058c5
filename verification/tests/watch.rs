use instant_replay::buffer::{BufferMark, ChunkIndex};
use instant_replay::chunk_index_actor::{
    apply_fragment_event, fragment_event_from_message, FragmentEvent, ChunkIndexHandle,
};
use instant_replay::device_watch::{DeviceWatch, WatchNotice};
use instant_replay::devices::CaptureDevice;
use instant_replay::fsm::ReplayState;

fn dev(id: &str) -> CaptureDevice {
    CaptureDevice { id: id.into(), display_name: id.into(), backend: "v4l2".into() }
}

#[test]
fn autostart_backoff() {
    let mut w = DeviceWatch::new(1_000_000);
    assert_eq!(w.backoff_secs(), 5);
    assert!(w.idle_tick(ReplayState::NoSignal, false, 1_000_000));
    assert!(!w.idle_tick(ReplayState::Live, false, 1_000_000));
    assert!(!w.idle_tick(ReplayState::Starting, true, 1_000_000));
    assert!(!w.record_probe(false, 1_000_000));
    assert!(!w.idle_tick(ReplayState::Starting, false, 1_004_999));
    assert!(w.idle_tick(ReplayState::Starting, false, 1_005_000));
    assert!(w.record_probe(true, 1_005_000));
    w.record_autostart(Some("Permission denied"));
    assert_eq!(w.backoff_secs(), 5);
    w.record_autostart(Some("permission DENIED again"));
    assert_eq!(w.backoff_secs(), 10);
    w.record_autostart(Some("denied"));
    assert_eq!(w.backoff_secs(), 20);
    w.record_autostart(Some("denied"));
    w.record_autostart(Some("denied"));
    assert_eq!(w.backoff_secs(), 60);
    w.record_autostart(Some("not-negotiated"));
    assert_eq!(w.backoff_secs(), 5);
    w.record_autostart(None);
    assert_eq!(w.backoff_secs(), 5);
}

#[test]
fn signal_loss_and_restore_once() {
    let mut w = DeviceWatch::new(0);
    let id = "v4l2:/dev/video0";
    assert!(!w.live_tick("test", ReplayState::Live));
    assert!(!w.live_tick("", ReplayState::Live));
    assert!(w.live_tick(id, ReplayState::Marked));
    assert_eq!(w.record_presence(id, &vec![dev(id)]), WatchNotice::Quiet);
    assert_eq!(w.record_presence(id, &vec![dev("v4l2:/dev/video2")]), WatchNotice::SignalLost);
    assert!(w.device_missing());
    assert_eq!(w.record_presence(id, &vec![]), WatchNotice::Quiet);
    assert_eq!(w.record_presence(id, &vec![dev(id)]), WatchNotice::SignalRestored);
    assert_eq!(w.record_presence(id, &vec![dev(id)]), WatchNotice::Quiet);
    assert_eq!(w.record_presence(id, &vec![]), WatchNotice::SignalLost);
    assert!(!w.live_tick(id, ReplayState::NoSignal));
    assert!(!w.device_missing());
    assert!(!w.idle_tick(ReplayState::Live, false, 0));
}

#[test]
fn element_messages() {
    match fragment_event_from_message("splitmuxsink-fragment-opened", Some("/b/chunk_00001.mkv".into()), None) {
        Some(FragmentEvent::Opened { location }) => assert_eq!(location, "/b/chunk_00001.mkv"),
        other => panic!("unexpected {other:?}"),
    }
    match fragment_event_from_message("splitmuxsink-fragment-closed", Some("/b/c.mkv".into()), Some(2_500_999_999)) {
        Some(FragmentEvent::Closed { location, duration_ms }) => {
            assert_eq!(location, "/b/c.mkv");
            assert_eq!(duration_ms, Some(2500));
        }
        other => panic!("unexpected {other:?}"),
    }
    assert!(fragment_event_from_message("splitmuxsink-fragment-closed", None, Some(1)).is_none());
    assert!(fragment_event_from_message("GstMessageQOS", Some("x".into()), None).is_none());
}

#[test]
fn worker_keeps_snapshot_in_step() {
    let mut idx = ChunkIndex::new("/b".into(), 20, 1);
    let mut snap = ChunkIndexHandle::for_index(&idx);
    assert!(snap.snapshot_mark_at(5).is_err());
    snap.note_fragment_opened("/b/chunk_00004.mkv", 1000);
    let ev = apply_fragment_event(&mut idx, &mut snap, FragmentEvent::Opened { location: "/b/chunk_00004.mkv".into() }, 1000);
    assert!(ev.is_empty());
    assert_eq!(snap.snapshot_mark_at(1400).unwrap(), idx.create_mark_at(1400).unwrap());
    assert_eq!(
        snap.snapshot_mark_at(1400).unwrap(),
        BufferMark { chunk_id: "00004".into(), offset_ms: 400, unix_ms: 1400 }
    );
    apply_fragment_event(&mut idx, &mut snap, FragmentEvent::Closed { location: "/b/chunk_00004.mkv".into(), duration_ms: Some(1000) }, 2000);
    assert_eq!(snap.last_finalized.as_deref(), Some("00004"));
    assert!(snap.open.is_none());
    assert_eq!(snap.snapshot_mark_at(2500).unwrap(), idx.create_mark_at(2500).unwrap());
    assert_eq!(idx.entries()[0].start_unix_ms, 1000);
    let restarted = ChunkIndexHandle::for_index(&idx);
    assert_eq!(restarted.last_finalized.as_deref(), Some("00004"));
    assert!(restarted.open.is_none());
    assert!(snap.snapshot_mark().is_ok());
}

#[test]
fn closing_the_open_fragment_keeps_snapshot_and_index_marks_equal() {
    let mut idx = ChunkIndex::new("/buf".into(), 20, 2);
    let mut snap = ChunkIndexHandle::for_index(&idx);
    let p = "/buf/chunk_00012.mkv";
    snap.note_fragment_opened(p, 10_000);
    apply_fragment_event(&mut idx, &mut snap, FragmentEvent::Opened { location: p.into() }, 10_000);
    apply_fragment_event(
        &mut idx,
        &mut snap,
        FragmentEvent::Closed { location: p.into(), duration_ms: Some(2000) },
        12_000,
    );
    let from_index = idx.create_mark_at(13_000).unwrap();
    let from_snapshot = snap.snapshot_mark_at(13_000).unwrap();
    assert_eq!(from_index, from_snapshot);
    assert_eq!(from_snapshot.chunk_id, "00012");
    assert_eq!(from_snapshot.offset_ms, 0);
}

#[test]
fn closing_an_older_fragment_keeps_the_next_noted_one() {
    let mut idx = ChunkIndex::new("/buf".into(), 20, 2);
    let mut snap = ChunkIndexHandle::for_index(&idx);
    snap.note_fragment_opened("/buf/chunk_00013.mkv", 20_000);
    apply_fragment_event(
        &mut idx,
        &mut snap,
        FragmentEvent::Closed { location: "/buf/chunk_00012.mkv".into(), duration_ms: Some(2000) },
        20_000,
    );
    assert_eq!(snap.open.as_ref().map(|o| o.chunk_id.as_str()), Some("00013"));
    assert_eq!(snap.last_finalized.as_deref(), Some("00012"));
}
