use instant_replay::engine::EngineStatus;
use instant_replay::fsm::ReplayState;
use instant_replay::gates::{can_clear_mark, can_mark, can_replay, MIN_BUFFER_MS};

fn snap(state: ReplayState, buffer_ready: bool, secs: f64) -> EngineStatus {
    EngineStatus {
        state,
        buffer_ms_available: (secs * 1000.0) as u64,
        disk_warning: false,
        last_error: String::new(),
        buffer_ready,
        buffer_error: false,
        mark_timestamp_ns: 0,
        sequence: 0,
    }
}

#[test]
fn gates_require_buffer_ready_for_mark() {
    assert!(!can_mark(&snap(ReplayState::Live, false, 2.0)));
    assert!(can_mark(&snap(ReplayState::Live, true, 2.0)));
}

#[test]
fn gates_require_min_secs_for_replay() {
    assert!(!can_replay(&snap(ReplayState::Live, true, 0.5)));
    assert!(can_replay(&snap(ReplayState::Live, true, 2.0)));
}

#[test]
fn mark_requires_buffer_ready_live_or_marked() {
    assert!(!can_mark(&snap(ReplayState::Live, false, 5.0)));
    assert!(can_mark(&snap(ReplayState::Live, true, 5.0)));
    assert!(can_mark(&snap(ReplayState::Marked, true, 5.0)));
    assert!(!can_mark(&snap(ReplayState::Replaying, true, 5.0)));
}

#[test]
fn replay_requires_min_buffer() {
    assert!(!can_replay(&snap(ReplayState::Live, true, 1.0)));
    assert!(can_replay(&snap(ReplayState::Live, true, 2.0)));
}

#[test]
fn replay_threshold_is_inclusive_and_state_bound() {
    assert_eq!(MIN_BUFFER_MS, 1500);
    assert!(can_replay(&snap(ReplayState::Replaying, true, 1.5)));
    assert!(!can_replay(&snap(ReplayState::Live, true, 1.499)));
    assert!(!can_replay(&snap(ReplayState::NoSignal, true, 30.0)));
    assert!(can_clear_mark(&snap(ReplayState::Marked, true, 0.0)));
    assert!(!can_clear_mark(&snap(ReplayState::Live, true, 9.0)));
}
