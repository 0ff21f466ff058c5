//! Small presentation rules of the operator window: banner colours per state and
//! the toast shown after a command is sent.
use vstd::prelude::*;

use crate::fsm::ReplayState;

verus! {

/// White text.
pub open spec fn white() -> (u8, u8, u8) {
    (255, 255, 255)
}

/// Banner background and text colours: red without signal or while recovering,
/// brown while replaying or returning to live, green otherwise; text is white.
pub open spec fn banner_colors_spec(state: ReplayState) -> ((u8, u8, u8), (u8, u8, u8)) {
    match state {
        ReplayState::NoSignal | ReplayState::ErrorRecovery => ((139, 34, 34), white()),
        ReplayState::Replaying | ReplayState::ReturningToLive => ((139, 69, 19), white()),
        _ => ((61, 90, 61), white()),
    }
}

pub fn state_colors(state: ReplayState) -> (r: ((u8, u8, u8), (u8, u8, u8)))
    ensures
        r == banner_colors_spec(state),
{
    match state {
        ReplayState::NoSignal | ReplayState::ErrorRecovery => ((139, 34, 34), (255, 255, 255)),
        ReplayState::Replaying | ReplayState::ReturningToLive => ((139, 69, 19), (255, 255, 255)),
        _ => ((61, 90, 61), (255, 255, 255)),
    }
}

/// The toast after handing a command to the engine: `Engine stopped` as an error
/// when it could not be delivered, else the pending message.
pub fn send_cmd_with_feedback(delivered: bool, pending_msg: &str) -> (r: (String, bool))
    ensures
        !delivered ==> r.0@ == "Engine stopped"@ && r.1,
        delivered ==> r.0@ == pending_msg@ && !r.1,
{
    if !delivered {
        (String::from_str("Engine stopped"), true)
    } else {
        (String::from_str(pending_msg), false)
    }
}

/// Shows a toast: its text, whether it reports an error, and when it was raised.
pub fn show_toast(toast: &mut Option<(String, bool, i64)>, msg: String, is_err: bool, now_ms: i64)
    ensures
        *final(toast) == Some((msg, is_err, now_ms)),
{
    *toast = Some((msg, is_err, now_ms));
}

} // verus!
