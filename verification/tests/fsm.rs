use instant_replay::fsm::{FsmError, ReplayEvent, ReplayFsm, ReplayState};

fn apply_all(fsm: &mut ReplayFsm, events: &[ReplayEvent]) -> Result<(), FsmError> {
    for &e in events {
        fsm.apply(e)?;
    }
    Ok(())
}

#[test]
fn starting_to_live() {
    let mut fsm = ReplayFsm::new();
    assert_eq!(fsm.state(), ReplayState::Starting);
    fsm.apply(ReplayEvent::InputReady).unwrap();
    assert_eq!(fsm.state(), ReplayState::Live);
}

#[test]
fn live_mark_replay_live() {
    let mut fsm = ReplayFsm::new();
    apply_all(
        &mut fsm,
        &[
            ReplayEvent::InputReady,
            ReplayEvent::Mark,
            ReplayEvent::Replay,
            ReplayEvent::ReplayFinished,
            ReplayEvent::Recover,
        ],
    )
    .unwrap();
    assert_eq!(fsm.state(), ReplayState::Live);
}

#[test]
fn marked_clear_returns_live() {
    let mut fsm = ReplayFsm::new();
    apply_all(&mut fsm, &[ReplayEvent::InputReady, ReplayEvent::Mark, ReplayEvent::ClearMark]).unwrap();
    assert_eq!(fsm.state(), ReplayState::Live);
}

#[test]
fn replay_interrupt_return_live() {
    let mut fsm = ReplayFsm::new();
    apply_all(&mut fsm, &[ReplayEvent::InputReady, ReplayEvent::ReplayLast, ReplayEvent::ReturnLive])
        .unwrap();
    assert_eq!(fsm.state(), ReplayState::Live);
}

#[test]
fn signal_loss_from_any_live_path() {
    let mut fsm = ReplayFsm::new();
    apply_all(&mut fsm, &[ReplayEvent::InputReady]).unwrap();
    fsm.apply(ReplayEvent::InputLost).unwrap();
    assert_eq!(fsm.state(), ReplayState::NoSignal);
}

#[test]
fn invalid_transition_rejected() {
    let mut fsm = ReplayFsm::new();
    let err = fsm.apply(ReplayEvent::Mark).unwrap_err();
    assert_eq!(
        err,
        FsmError::InvalidTransition { state: ReplayState::Starting, event: ReplayEvent::Mark }
    );
}

#[test]
fn full_table_tennis_flow() {
    let mut fsm = ReplayFsm::new();
    fsm.apply(ReplayEvent::InputReady).unwrap();
    assert_eq!(fsm.state(), ReplayState::Live);
    fsm.apply(ReplayEvent::Mark).unwrap();
    assert_eq!(fsm.state(), ReplayState::Marked);
    fsm.apply(ReplayEvent::Replay).unwrap();
    assert_eq!(fsm.state(), ReplayState::Replaying);
    fsm.apply(ReplayEvent::ReplayFinished).unwrap();
    assert_eq!(fsm.state(), ReplayState::ReturningToLive);
    fsm.apply(ReplayEvent::Recover).unwrap();
    assert_eq!(fsm.state(), ReplayState::Live);
}

#[test]
fn replay_event_from_live_without_prior_mark_stays_reversible() {
    let mut fsm = ReplayFsm::new();
    fsm.apply(ReplayEvent::InputReady).unwrap();
    assert_eq!(fsm.state(), ReplayState::Live);
    fsm.apply(ReplayEvent::ReplayLast).unwrap();
    assert_eq!(fsm.state(), ReplayState::Replaying);
    fsm.force_state(ReplayState::Live);
    assert_eq!(fsm.state(), ReplayState::Live);
}

#[test]
fn replay_event_from_marked_rollback_restores_marked() {
    let mut fsm = ReplayFsm::new();
    fsm.apply(ReplayEvent::InputReady).unwrap();
    fsm.apply(ReplayEvent::Mark).unwrap();
    assert_eq!(fsm.state(), ReplayState::Marked);
    fsm.apply(ReplayEvent::Replay).unwrap();
    assert_eq!(fsm.state(), ReplayState::Replaying);
    fsm.force_state(ReplayState::Marked);
    assert_eq!(fsm.state(), ReplayState::Marked);
}

#[test]
fn rejected_event_leaves_state_unchanged() {
    let mut fsm = ReplayFsm::new();
    fsm.apply(ReplayEvent::InputReady).unwrap();
    assert!(fsm.apply(ReplayEvent::ReplayFinished).is_err());
    assert_eq!(fsm.state(), ReplayState::Live);
}

#[test]
fn every_state_reaches_no_signal_on_input_loss() {
    for s in [
        ReplayState::Starting,
        ReplayState::Live,
        ReplayState::Marked,
        ReplayState::Replaying,
        ReplayState::ReturningToLive,
        ReplayState::ErrorRecovery,
    ] {
        let mut fsm = ReplayFsm::new();
        fsm.force_state(s);
        assert_eq!(fsm.apply(ReplayEvent::InputLost).unwrap(), ReplayState::NoSignal);
    }
    let mut fsm = ReplayFsm::new();
    fsm.force_state(ReplayState::NoSignal);
    assert!(fsm.apply(ReplayEvent::InputLost).is_err());
}

#[test]
fn state_names_are_upper_case() {
    assert_eq!(ReplayState::Starting.as_str(), "STARTING");
    assert_eq!(ReplayState::NoSignal.as_str(), "NO_SIGNAL");
    assert_eq!(ReplayState::ReturningToLive.as_str(), "RETURNING_TO_LIVE");
    assert_eq!(ReplayState::ErrorRecovery.as_str(), "ERROR_RECOVERY");
}

#[test]
fn rejected_transition_message_names_state_and_event() {
    let mut fsm = ReplayFsm::new();
    let err = fsm.apply(ReplayEvent::Mark).unwrap_err();
    assert_eq!(
        err.message(),
        "invalid transition in state Starting on event Mark"
    );
}
