//! Operator button enable rules for the touch UI and the HTTP API.
use vstd::prelude::*;

use crate::engine::EngineStatus;
use crate::fsm::ReplayState;

verus! {

/// Minimum recorded buffer, in milliseconds, before "replay" is enabled (1.5 s).
pub const MIN_BUFFER_MS: u64 = 1500;

/// Mark needs recorded buffer and a `Live` or `Marked` state.
pub fn can_mark(s: &EngineStatus) -> (r: bool)
    ensures
        r == (s.buffer_ready && (s.state == ReplayState::Live || s.state == ReplayState::Marked)),
{
    s.buffer_ready && (s.state == ReplayState::Live || s.state == ReplayState::Marked)
}

/// Replay needs at least 1.5 s of buffer and a `Live`, `Marked` or `Replaying` state.
pub fn can_replay(s: &EngineStatus) -> (r: bool)
    ensures
        r == (s.buffer_ms_available >= MIN_BUFFER_MS && (s.state == ReplayState::Live || s.state
            == ReplayState::Marked || s.state == ReplayState::Replaying)),
{
    s.buffer_ms_available >= MIN_BUFFER_MS && (s.state == ReplayState::Live || s.state
        == ReplayState::Marked || s.state == ReplayState::Replaying)
}

/// Clearing the mark is offered only while `Marked`.
pub fn can_clear_mark(s: &EngineStatus) -> (r: bool)
    ensures
        r == (s.state == ReplayState::Marked),
{
    s.state == ReplayState::Marked
}

} // verus!
