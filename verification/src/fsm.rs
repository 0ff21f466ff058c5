//! Replay state machine: which operator and pipeline events are legal in which state.
use vstd::prelude::*;

verus! {

/// Operator-visible replay state.
#[derive(Clone, Copy, Debug, PartialEq, Eq, Structural, Hash)]
pub enum ReplayState {
    Starting,
    NoSignal,
    Live,
    Marked,
    Replaying,
    ReturningToLive,
    ErrorRecovery,
}

/// Events that drive the replay state machine.
#[derive(Clone, Copy, Debug, PartialEq, Eq, Structural, Hash)]
pub enum ReplayEvent {
    InputReady,
    InputLost,
    Mark,
    Replay,
    ReplayLast,
    ReturnLive,
    ClearMark,
    ReplayFinished,
    Recover,
    Error,
}

/// Rejection of an event that is not legal in the current state.
#[derive(Clone, Copy, Debug, PartialEq, Eq, Structural)]
pub enum FsmError {
    InvalidTransition { state: ReplayState, event: ReplayEvent },
}

/// The variant name of a state, as `{:?}` prints it.
pub open spec fn state_variant(state: ReplayState) -> Seq<char> {
    match state {
        ReplayState::Starting => "Starting"@,
        ReplayState::NoSignal => "NoSignal"@,
        ReplayState::Live => "Live"@,
        ReplayState::Marked => "Marked"@,
        ReplayState::Replaying => "Replaying"@,
        ReplayState::ReturningToLive => "ReturningToLive"@,
        ReplayState::ErrorRecovery => "ErrorRecovery"@,
    }
}

/// The variant name of an event, as `{:?}` prints it.
pub open spec fn event_variant(event: ReplayEvent) -> Seq<char> {
    match event {
        ReplayEvent::InputReady => "InputReady"@,
        ReplayEvent::InputLost => "InputLost"@,
        ReplayEvent::Mark => "Mark"@,
        ReplayEvent::Replay => "Replay"@,
        ReplayEvent::ReplayLast => "ReplayLast"@,
        ReplayEvent::ReturnLive => "ReturnLive"@,
        ReplayEvent::ClearMark => "ClearMark"@,
        ReplayEvent::ReplayFinished => "ReplayFinished"@,
        ReplayEvent::Recover => "Recover"@,
        ReplayEvent::Error => "Error"@,
    }
}

fn state_variant_str(state: ReplayState) -> (r: &'static str)
    ensures
        r@ == state_variant(state),
{
    match state {
        ReplayState::Starting => "Starting",
        ReplayState::NoSignal => "NoSignal",
        ReplayState::Live => "Live",
        ReplayState::Marked => "Marked",
        ReplayState::Replaying => "Replaying",
        ReplayState::ReturningToLive => "ReturningToLive",
        ReplayState::ErrorRecovery => "ErrorRecovery",
    }
}

fn event_variant_str(event: ReplayEvent) -> (r: &'static str)
    ensures
        r@ == event_variant(event),
{
    match event {
        ReplayEvent::InputReady => "InputReady",
        ReplayEvent::InputLost => "InputLost",
        ReplayEvent::Mark => "Mark",
        ReplayEvent::Replay => "Replay",
        ReplayEvent::ReplayLast => "ReplayLast",
        ReplayEvent::ReturnLive => "ReturnLive",
        ReplayEvent::ClearMark => "ClearMark",
        ReplayEvent::ReplayFinished => "ReplayFinished",
        ReplayEvent::Recover => "Recover",
        ReplayEvent::Error => "Error",
    }
}

impl FsmError {
    /// Operator text of the rejection.
    pub fn message(&self) -> (r: String)
        ensures
            match *self {
                FsmError::InvalidTransition { state, event } => r@ == "invalid transition in state "@
                    + state_variant(state) + " on event "@ + event_variant(event),
            },
    {
        match self {
            FsmError::InvalidTransition { state, event } => {
                let mut v = crate::text::str_chars("invalid transition in state ");
                crate::text::push_str(&mut v, state_variant_str(*state));
                crate::text::push_str(&mut v, " on event ");
                crate::text::push_str(&mut v, event_variant_str(*event));
                crate::text::string_from_chars(&v)
            },
        }
    }
}

/// The upper-case wire name of a state.
pub open spec fn state_name(state: ReplayState) -> Seq<char> {
    match state {
        ReplayState::Starting => "STARTING"@,
        ReplayState::NoSignal => "NO_SIGNAL"@,
        ReplayState::Live => "LIVE"@,
        ReplayState::Marked => "MARKED"@,
        ReplayState::Replaying => "REPLAYING"@,
        ReplayState::ReturningToLive => "RETURNING_TO_LIVE"@,
        ReplayState::ErrorRecovery => "ERROR_RECOVERY"@,
    }
}

impl ReplayState {
    /// Upper-case name used in status JSON and on the operator banner.
    pub fn as_str(self) -> (r: &'static str)
        ensures
            r@ == state_name(self),
    {
        match self {
            ReplayState::Starting => "STARTING",
            ReplayState::NoSignal => "NO_SIGNAL",
            ReplayState::Live => "LIVE",
            ReplayState::Marked => "MARKED",
            ReplayState::Replaying => "REPLAYING",
            ReplayState::ReturningToLive => "RETURNING_TO_LIVE",
            ReplayState::ErrorRecovery => "ERROR_RECOVERY",
        }
    }
}

/// The transition table: the next state for `(state, event)`, or `None` when the
/// event is not legal in that state.
pub open spec fn next_state(state: ReplayState, event: ReplayEvent) -> Option<ReplayState> {
    match (state, event) {
        (ReplayState::Starting, ReplayEvent::InputReady) => Some(ReplayState::Live),
        (ReplayState::Starting, ReplayEvent::InputLost) => Some(ReplayState::NoSignal),
        (ReplayState::Starting, ReplayEvent::Error) => Some(ReplayState::ErrorRecovery),
        (ReplayState::NoSignal, ReplayEvent::InputReady) => Some(ReplayState::Live),
        (ReplayState::NoSignal, ReplayEvent::Recover) => Some(ReplayState::Live),
        (ReplayState::Live, ReplayEvent::InputLost) => Some(ReplayState::NoSignal),
        (ReplayState::Live, ReplayEvent::Mark) => Some(ReplayState::Marked),
        (ReplayState::Live, ReplayEvent::Replay) => Some(ReplayState::Replaying),
        (ReplayState::Live, ReplayEvent::ReplayLast) => Some(ReplayState::Replaying),
        (ReplayState::Live, ReplayEvent::Error) => Some(ReplayState::ErrorRecovery),
        (ReplayState::Marked, ReplayEvent::InputLost) => Some(ReplayState::NoSignal),
        (ReplayState::Marked, ReplayEvent::Replay) => Some(ReplayState::Replaying),
        (ReplayState::Marked, ReplayEvent::ReplayLast) => Some(ReplayState::Replaying),
        (ReplayState::Marked, ReplayEvent::ClearMark) => Some(ReplayState::Live),
        (ReplayState::Marked, ReplayEvent::ReturnLive) => Some(ReplayState::Live),
        (ReplayState::Marked, ReplayEvent::Error) => Some(ReplayState::ErrorRecovery),
        (ReplayState::Replaying, ReplayEvent::ReplayFinished) => Some(ReplayState::ReturningToLive),
        (ReplayState::Replaying, ReplayEvent::ReturnLive) => Some(ReplayState::Live),
        (ReplayState::Replaying, ReplayEvent::InputLost) => Some(ReplayState::NoSignal),
        (ReplayState::Replaying, ReplayEvent::Error) => Some(ReplayState::ErrorRecovery),
        (ReplayState::ReturningToLive, ReplayEvent::InputReady) => Some(ReplayState::Live),
        (ReplayState::ReturningToLive, ReplayEvent::Recover) => Some(ReplayState::Live),
        (ReplayState::ReturningToLive, ReplayEvent::InputLost) => Some(ReplayState::NoSignal),
        (ReplayState::ErrorRecovery, ReplayEvent::Recover) => Some(ReplayState::Live),
        (ReplayState::ErrorRecovery, ReplayEvent::InputReady) => Some(ReplayState::Live),
        (ReplayState::ErrorRecovery, ReplayEvent::InputLost) => Some(ReplayState::NoSignal),
        _ => None,
    }
}

/// What applying `event` in `state` yields: the next state, or the rejection.
pub open spec fn transition_result(state: ReplayState, event: ReplayEvent) -> Result<
    ReplayState,
    FsmError,
> {
    match next_state(state, event) {
        Some(next) => Ok(next),
        None => Err(FsmError::InvalidTransition { state, event }),
    }
}

/// Computes the transition table entry for `(state, event)`.
pub fn transition(state: ReplayState, event: ReplayEvent) -> (r: Result<ReplayState, FsmError>)
    ensures
        r == transition_result(state, event),
{
    match (state, event) {
        (ReplayState::Starting, ReplayEvent::InputReady) => Ok(ReplayState::Live),
        (ReplayState::Starting, ReplayEvent::InputLost) => Ok(ReplayState::NoSignal),
        (ReplayState::Starting, ReplayEvent::Error) => Ok(ReplayState::ErrorRecovery),
        (ReplayState::NoSignal, ReplayEvent::InputReady) => Ok(ReplayState::Live),
        (ReplayState::NoSignal, ReplayEvent::Recover) => Ok(ReplayState::Live),
        (ReplayState::Live, ReplayEvent::InputLost) => Ok(ReplayState::NoSignal),
        (ReplayState::Live, ReplayEvent::Mark) => Ok(ReplayState::Marked),
        (ReplayState::Live, ReplayEvent::Replay) => Ok(ReplayState::Replaying),
        (ReplayState::Live, ReplayEvent::ReplayLast) => Ok(ReplayState::Replaying),
        (ReplayState::Live, ReplayEvent::Error) => Ok(ReplayState::ErrorRecovery),
        (ReplayState::Marked, ReplayEvent::InputLost) => Ok(ReplayState::NoSignal),
        (ReplayState::Marked, ReplayEvent::Replay) => Ok(ReplayState::Replaying),
        (ReplayState::Marked, ReplayEvent::ReplayLast) => Ok(ReplayState::Replaying),
        (ReplayState::Marked, ReplayEvent::ClearMark) => Ok(ReplayState::Live),
        (ReplayState::Marked, ReplayEvent::ReturnLive) => Ok(ReplayState::Live),
        (ReplayState::Marked, ReplayEvent::Error) => Ok(ReplayState::ErrorRecovery),
        (ReplayState::Replaying, ReplayEvent::ReplayFinished) => Ok(ReplayState::ReturningToLive),
        (ReplayState::Replaying, ReplayEvent::ReturnLive) => Ok(ReplayState::Live),
        (ReplayState::Replaying, ReplayEvent::InputLost) => Ok(ReplayState::NoSignal),
        (ReplayState::Replaying, ReplayEvent::Error) => Ok(ReplayState::ErrorRecovery),
        (ReplayState::ReturningToLive, ReplayEvent::InputReady) => Ok(ReplayState::Live),
        (ReplayState::ReturningToLive, ReplayEvent::Recover) => Ok(ReplayState::Live),
        (ReplayState::ReturningToLive, ReplayEvent::InputLost) => Ok(ReplayState::NoSignal),
        (ReplayState::ErrorRecovery, ReplayEvent::Recover) => Ok(ReplayState::Live),
        (ReplayState::ErrorRecovery, ReplayEvent::InputReady) => Ok(ReplayState::Live),
        (ReplayState::ErrorRecovery, ReplayEvent::InputLost) => Ok(ReplayState::NoSignal),
        (s, e) => Err(FsmError::InvalidTransition { state: s, event: e }),
    }
}

/// The replay state machine; it starts in `Starting`.
#[derive(Clone, Copy, Debug)]
pub struct ReplayFsm {
    state: ReplayState,
}

impl ReplayFsm {
    /// The current state, as seen by specifications.
    pub closed spec fn current(self) -> ReplayState {
        self.state
    }

    pub fn new() -> (r: Self)
        ensures
            r.current() == ReplayState::Starting,
    {
        ReplayFsm { state: ReplayState::Starting }
    }

    pub fn state(&self) -> (r: ReplayState)
        ensures
            r == self.current(),
    {
        self.state
    }

    /// Applies `event`: on success the machine moves to the table's next state and
    /// returns it; on rejection the state is left as it was.
    pub fn apply(&mut self, event: ReplayEvent) -> (r: Result<ReplayState, FsmError>)
        ensures
            r == transition_result(old(self).current(), event),
            r matches Ok(next) ==> final(self).current() == next,
            r is Err ==> final(self).current() == old(self).current(),
    {
        let next = transition(self.state, event)?;
        self.state = next;
        Ok(self.state)
    }

    /// Sets the state without consulting the table (used to roll back a failed replay).
    pub fn force_state(&mut self, state: ReplayState)
        ensures
            final(self).current() == state,
    {
        self.state = state;
    }
}

impl Default for ReplayFsm {
    fn default() -> (r: Self)
        ensures
            r.current() == ReplayState::Starting,
    {
        Self::new()
    }
}

/// Input loss is accepted from every state except `NoSignal` itself, and always
/// leads to `NoSignal`.
pub proof fn law_input_lost_leads_to_no_signal(state: ReplayState)
    ensures
        state != ReplayState::NoSignal ==> next_state(state, ReplayEvent::InputLost) == Some(
            ReplayState::NoSignal,
        ),
        state == ReplayState::NoSignal ==> next_state(state, ReplayEvent::InputLost) is None,
{
}

/// From every state other than `Live`, a single event leads back to `Live`.
pub proof fn law_live_reachable_in_one_step(state: ReplayState)
    requires
        state != ReplayState::Live,
    ensures
        exists|e: ReplayEvent| next_state(state, e) == Some(ReplayState::Live),
{
    let e = match state {
        ReplayState::Starting => ReplayEvent::InputReady,
        ReplayState::NoSignal => ReplayEvent::InputReady,
        ReplayState::Marked => ReplayEvent::ClearMark,
        ReplayState::Replaying => ReplayEvent::ReturnLive,
        ReplayState::ReturningToLive => ReplayEvent::Recover,
        _ => ReplayEvent::Recover,
    };
    assert(next_state(state, e) == Some(ReplayState::Live));
}

/// Replay is entered only from `Live` or `Marked`, and only by `Replay` or `ReplayLast`.
pub proof fn law_replaying_entered_only_by_replay(state: ReplayState, event: ReplayEvent)
    requires
        state != ReplayState::Replaying,
        next_state(state, event) == Some(ReplayState::Replaying),
    ensures
        state == ReplayState::Live || state == ReplayState::Marked,
        event == ReplayEvent::Replay || event == ReplayEvent::ReplayLast,
{
}

/// A mark is set only from `Live` by the `Mark` event.
pub proof fn law_marked_entered_only_by_mark(state: ReplayState, event: ReplayEvent)
    requires
        next_state(state, event) == Some(ReplayState::Marked),
    ensures
        state == ReplayState::Live,
        event == ReplayEvent::Mark,
{
}

/// The `Error` event is accepted exactly in `Starting`, `Live`, `Marked` and
/// `Replaying`, and leads to `ErrorRecovery`.
pub proof fn law_error_enters_recovery(state: ReplayState)
    ensures
        (state == ReplayState::Starting || state == ReplayState::Live || state
            == ReplayState::Marked || state == ReplayState::Replaying) ==> next_state(
            state,
            ReplayEvent::Error,
        ) == Some(ReplayState::ErrorRecovery),
        !(state == ReplayState::Starting || state == ReplayState::Live || state
            == ReplayState::Marked || state == ReplayState::Replaying) ==> next_state(
            state,
            ReplayEvent::Error,
        ) is None,
{
}

/// Returning to live is accepted exactly while a mark is set or a replay runs,
/// and leads to `Live`.
pub proof fn law_return_live_from_mark_or_replay(state: ReplayState)
    ensures
        (state == ReplayState::Marked || state == ReplayState::Replaying) ==> next_state(
            state,
            ReplayEvent::ReturnLive,
        ) == Some(ReplayState::Live),
        !(state == ReplayState::Marked || state == ReplayState::Replaying) ==> next_state(
            state,
            ReplayEvent::ReturnLive,
        ) is None,
{
}

/// Clearing the mark is accepted only while a mark is set, and leads to `Live`.
pub proof fn law_clear_mark_only_when_marked(state: ReplayState)
    ensures
        state == ReplayState::Marked ==> next_state(state, ReplayEvent::ClearMark) == Some(
            ReplayState::Live,
        ),
        state != ReplayState::Marked ==> next_state(state, ReplayEvent::ClearMark) is None,
{
}

/// A mark can be taken only on live video, and leads to `Marked`.
pub proof fn law_mark_only_when_live(state: ReplayState)
    ensures
        state == ReplayState::Live ==> next_state(state, ReplayEvent::Mark) == Some(ReplayState::Marked),
        state != ReplayState::Live ==> next_state(state, ReplayEvent::Mark) is None,
{
}

/// Both replay requests are accepted exactly on live video or with a mark set,
/// and start a replay.
pub proof fn law_replay_from_live_or_mark(state: ReplayState, event: ReplayEvent)
    requires
        event == ReplayEvent::Replay || event == ReplayEvent::ReplayLast,
    ensures
        (state == ReplayState::Live || state == ReplayState::Marked) ==> next_state(state, event)
            == Some(ReplayState::Replaying),
        !(state == ReplayState::Live || state == ReplayState::Marked) ==> next_state(state, event) is None,
{
}

/// The end of a replay is accepted only while replaying, and leads to
/// `ReturningToLive`.
pub proof fn law_replay_finished_only_when_replaying(state: ReplayState)
    ensures
        state == ReplayState::Replaying ==> next_state(state, ReplayEvent::ReplayFinished) == Some(
            ReplayState::ReturningToLive,
        ),
        state != ReplayState::Replaying ==> next_state(state, ReplayEvent::ReplayFinished) is None,
{
}

/// Input becoming ready leads to `Live` from starting, no signal, returning to
/// live and error recovery, and is refused in the other states.
pub proof fn law_input_ready_goes_live(state: ReplayState)
    ensures
        (state == ReplayState::Starting || state == ReplayState::NoSignal || state
            == ReplayState::ReturningToLive || state == ReplayState::ErrorRecovery) ==> next_state(
            state,
            ReplayEvent::InputReady,
        ) == Some(ReplayState::Live),
        (state == ReplayState::Live || state == ReplayState::Marked || state
            == ReplayState::Replaying) ==> next_state(state, ReplayEvent::InputReady) is None,
{
}

/// Recovery leads to `Live` from no signal, returning to live and error recovery,
/// and is refused in the other states.
pub proof fn law_recover_goes_live(state: ReplayState)
    ensures
        (state == ReplayState::NoSignal || state == ReplayState::ReturningToLive || state
            == ReplayState::ErrorRecovery) ==> next_state(state, ReplayEvent::Recover) == Some(
            ReplayState::Live,
        ),
        !(state == ReplayState::NoSignal || state == ReplayState::ReturningToLive || state
            == ReplayState::ErrorRecovery) ==> next_state(state, ReplayEvent::Recover) is None,
{
}

/// Applying an event to the machine agrees with these laws: it succeeds exactly
/// when the event is legal, moving to the next state, and is refused with the
/// state and event otherwise, leaving the machine where it was.
pub proof fn law_apply_follows_table(state: ReplayState, event: ReplayEvent)
    ensures
        next_state(state, event) matches Some(n) ==> transition_result(state, event) == Ok::<
            ReplayState,
            FsmError,
        >(n),
        next_state(state, event) is None ==> transition_result(state, event) == Err::<
            ReplayState,
            FsmError,
        >(FsmError::InvalidTransition { state, event }),
{
}

} // verus!
