use instant_replay::buffer::MIN_REPLAY_BUFFER_MS;
use instant_replay::engine::{replay_uses_mark, EngineCore, ReplayRefusal, ReplaySource};
use instant_replay::fsm::ReplayState;

#[test]
fn min_replay_buffer_threshold_matches_acceptance() {
    assert!((MIN_REPLAY_BUFFER_MS as f64 / 1000.0 - 1.5).abs() < f64::EPSILON);
}

#[test]
fn replay_mode_last_ignores_mark_flag() {
    let mode = "last";
    let has_mark = true;
    let use_mark = replay_uses_mark(mode, has_mark);
    assert!(!use_mark);
}

#[test]
fn replay_mode_marked_uses_mark_when_set() {
    let mode = "marked";
    let has_mark = true;
    let use_mark = replay_uses_mark(mode, has_mark);
    assert!(use_mark);
}

#[test]
fn replay_mode_marked_falls_back_without_mark() {
    let mode = "marked";
    let has_mark = false;
    let use_mark = replay_uses_mark(mode, has_mark);
    assert!(!use_mark);
}

fn live_engine(buffer_ms: u64) -> EngineCore {
    let mut e = EngineCore::new(true);
    e.begin_live_start();
    e.on_live_started().unwrap();
    e.record_buffer_ms(buffer_ms);
    e
}

#[test]
fn replay_refused_without_segments_keeps_state() {
    let mut e = live_engine(5000);
    assert_eq!(e.begin_replay(0), Err(ReplayRefusal::NoSegments));
    assert_eq!(e.state(), ReplayState::Live);
}

#[test]
fn replay_refused_with_short_buffer_keeps_state() {
    let mut e = live_engine(1499);
    assert_eq!(e.begin_replay(3), Err(ReplayRefusal::BufferTooShort { available_ms: 1499 }));
    assert_eq!(e.state(), ReplayState::Live);
}

#[test]
fn failed_replay_rolls_back_to_marked() {
    let mut e = live_engine(5000);
    e.check_mark_allowed().unwrap();
    let ns = e.on_mark_taken(1_700_000_000_000).unwrap();
    assert_eq!(ns, 1_700_000_000_000_000_000);
    assert_eq!(e.state(), ReplayState::Marked);
    let prior = e.begin_replay(2).unwrap();
    assert_eq!(prior, ReplayState::Marked);
    assert_eq!(e.state(), ReplayState::Replaying);
    e.replay_failed(prior, "replay seek failed".to_string());
    assert_eq!(e.state(), ReplayState::Marked);
    let status = e.status_snapshot(None);
    assert_eq!(status.last_error, "replay seek failed");
    assert_eq!(status.mark_timestamp_ns, 1_700_000_000_000_000_000);
}

#[test]
fn replay_plan_uses_mark_only_in_marked_mode() {
    let mut e = live_engine(5000);
    assert_eq!(e.plan_replay("marked", 10), ReplaySource::LastSeconds { seconds: 10 });
    e.on_mark_taken(1000).unwrap();
    assert_eq!(e.plan_replay("marked", 10), ReplaySource::FromMark);
    assert_eq!(e.plan_replay("last", 10), ReplaySource::LastSeconds { seconds: 10 });
}
