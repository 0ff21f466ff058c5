//! Decisions of the replay engine controller: what each operator command and
//! pipeline event does to the replay state, the mark and the reported status. The
//! caller performs the pipeline work and hands back what happened.
use vstd::prelude::*;

use crate::buffer::MIN_REPLAY_BUFFER_MS;
use crate::fsm::{transition_result, FsmError, ReplayEvent, ReplayFsm, ReplayState};
use crate::storage_monitor::StorageMonitor;
use crate::text::{chars_eq_str, str_chars};

verus! {

/// The status published to the operator UI and the HTTP API.
#[derive(Debug)]
pub struct EngineStatus {
    pub state: ReplayState,
    pub buffer_ms_available: u64,
    pub disk_warning: bool,
    pub last_error: String,
    pub buffer_ready: bool,
    pub buffer_error: bool,
    pub mark_timestamp_ns: i64,
    pub sequence: u64,
}

impl Clone for EngineStatus {
    fn clone(&self) -> (r: Self)
        ensures
            r == *self,
    {
        EngineStatus {
            state: self.state,
            buffer_ms_available: self.buffer_ms_available,
            disk_warning: self.disk_warning,
            last_error: self.last_error.clone(),
            buffer_ready: self.buffer_ready,
            buffer_error: self.buffer_error,
            mark_timestamp_ns: self.mark_timestamp_ns,
            sequence: self.sequence,
        }
    }
}

/// Why a mark request is refused before a mark is taken.
#[derive(Debug, Clone, Copy, PartialEq, Eq, Structural)]
pub enum MarkRefusal {
    CaptureNotRunning,
    BufferNotReady,
}

impl MarkRefusal {
    pub fn message(&self) -> (r: &'static str)
        ensures
            *self == MarkRefusal::CaptureNotRunning ==> r@ == "capture not running"@,
            *self == MarkRefusal::BufferNotReady ==> r@
                == "buffer not ready — wait for recording before marking"@,
    {
        match self {
            MarkRefusal::CaptureNotRunning => "capture not running",
            MarkRefusal::BufferNotReady => "buffer not ready — wait for recording before marking",
        }
    }
}

/// Why a replay is refused before the pipeline is touched.
#[derive(Debug, Clone, Copy, PartialEq, Eq, Structural)]
pub enum ReplayRefusal {
    /// The buffer holds no segment for the request.
    NoSegments,
    /// Less than the minimum replay buffer is recorded.
    BufferTooShort { available_ms: u64 },
    /// The state machine does not accept a replay now.
    Rejected(FsmError),
}

/// Where a replay reads its segments from.
#[derive(Debug, Clone, Copy, PartialEq, Eq, Structural)]
pub enum ReplaySource {
    /// From the stored mark (with the mark's offset into its chunk).
    FromMark,
    /// The last N seconds of the buffer.
    LastSeconds { seconds: u32 },
}

/// A replay `mode` other than `last` uses the mark when one is set.
pub open spec fn uses_mark_spec(mode: Seq<char>, has_mark: bool) -> bool {
    mode != "last"@ && has_mark
}

/// Whether a replay in `mode` starts from the mark.
pub fn replay_uses_mark(mode: &str, has_mark: bool) -> (r: bool)
    ensures
        r == uses_mark_spec(mode@, has_mark),
{
    let m = str_chars(mode);
    !chars_eq_str(&m, "last") && has_mark
}

/// Seconds for "replay last": the request, or the configured default for 0.
pub fn replay_last_seconds(requested: u32, default_seconds: u32) -> (r: u32)
    ensures
        r == (if requested == 0 {
            default_seconds
        } else {
            requested
        }),
{
    if requested == 0 {
        default_seconds
    } else {
        requested
    }
}

/// The controller's decision state.
#[derive(Debug)]
pub struct EngineCore {
    fsm: ReplayFsm,
    test_mode: bool,
    capture_running: bool,
    mark_timestamp_ns: i64,
    buffer_ms: u64,
    last_error: String,
    disk_warning: bool,
    buffer_error: bool,
    sequence: u64,
}

/// Text shown while the input signal is missing.
pub open spec fn signal_lost_text() -> Seq<char> {
    "Input signal lost"@
}

/// Text shown when the buffer disk is full.
pub open spec fn disk_full_text() -> Seq<char> {
    "Buffer disk full — recording stopped"@
}

/// Text shown when buffer writes are slow.
pub open spec fn slow_disk_text() -> Seq<char> {
    "Slow disk writes — check storage"@
}

impl EngineCore {
    pub closed spec fn state_spec(&self) -> ReplayState {
        self.fsm.current()
    }

    pub closed spec fn test_mode_spec(&self) -> bool {
        self.test_mode
    }

    pub closed spec fn running_spec(&self) -> bool {
        self.capture_running
    }

    pub closed spec fn mark_ns_spec(&self) -> i64 {
        self.mark_timestamp_ns
    }

    pub closed spec fn buffer_ms_spec(&self) -> u64 {
        self.buffer_ms
    }

    pub closed spec fn last_error_spec(&self) -> Seq<char> {
        self.last_error@
    }

    pub closed spec fn disk_warning_spec(&self) -> bool {
        self.disk_warning
    }

    pub closed spec fn buffer_error_spec(&self) -> bool {
        self.buffer_error
    }

    pub closed spec fn sequence_spec(&self) -> u64 {
        self.sequence
    }

    /// Everything except the replay state is unchanged from `other`.
    pub open spec fn same_except_state(&self, other: &Self) -> bool {
        &&& self.test_mode_spec() == other.test_mode_spec()
        &&& self.running_spec() == other.running_spec()
        &&& self.mark_ns_spec() == other.mark_ns_spec()
        &&& self.buffer_ms_spec() == other.buffer_ms_spec()
        &&& self.last_error_spec() == other.last_error_spec()
        &&& self.disk_warning_spec() == other.disk_warning_spec()
        &&& self.buffer_error_spec() == other.buffer_error_spec()
        &&& self.sequence_spec() == other.sequence_spec()
    }

    /// The state after applying `event` to `before` (unchanged when rejected).
    pub open spec fn state_after(before: ReplayState, event: ReplayEvent) -> ReplayState {
        match transition_result(before, event) {
            Ok(s) => s,
            Err(_) => before,
        }
    }

    /// A fresh controller: `Starting`, no capture, no mark, empty buffer.
    pub fn new(test_mode: bool) -> (r: Self)
        ensures
            r.state_spec() == ReplayState::Starting,
            r.test_mode_spec() == test_mode,
            !r.running_spec(),
            r.mark_ns_spec() == 0,
            r.buffer_ms_spec() == 0,
            r.last_error_spec().len() == 0,
            !r.disk_warning_spec(),
            !r.buffer_error_spec(),
            r.sequence_spec() == 0,
    {
        EngineCore {
            fsm: ReplayFsm::new(),
            test_mode,
            capture_running: false,
            mark_timestamp_ns: 0,
            buffer_ms: 0,
            last_error: String::new(),
            disk_warning: false,
            buffer_error: false,
            sequence: 0,
        }
    }

    pub fn state(&self) -> (r: ReplayState)
        ensures
            r == self.state_spec(),
    {
        self.fsm.state()
    }

    pub fn test_mode(&self) -> (r: bool)
        ensures
            r == self.test_mode_spec(),
    {
        self.test_mode
    }

    pub fn capture_running(&self) -> (r: bool)
        ensures
            r == self.running_spec(),
    {
        self.capture_running
    }

    pub fn mark_timestamp_ns(&self) -> (r: i64)
        ensures
            r == self.mark_ns_spec(),
    {
        self.mark_timestamp_ns
    }

    pub fn buffer_ms_available(&self) -> (r: u64)
        ensures
            r == self.buffer_ms_spec(),
    {
        self.buffer_ms
    }

    /// Recorded buffer is available once anything has been recorded.
    pub fn buffer_ready(&self) -> (r: bool)
        ensures
            r == (self.buffer_ms_spec() > 0),
    {
        self.buffer_ms > 0
    }

    /// Stores the buffered length reported by the chunk index.
    pub fn record_buffer_ms(&mut self, ms: u64)
        ensures
            final(self).buffer_ms_spec() == ms,
            final(self).state_spec() == old(self).state_spec(),
            final(self).running_spec() == old(self).running_spec(),
            final(self).mark_ns_spec() == old(self).mark_ns_spec(),
            final(self).last_error_spec() == old(self).last_error_spec(),
            final(self).test_mode_spec() == old(self).test_mode_spec(),
            final(self).disk_warning_spec() == old(self).disk_warning_spec(),
            final(self).buffer_error_spec() == old(self).buffer_error_spec(),
            final(self).sequence_spec() == old(self).sequence_spec(),
    {
        self.buffer_ms = ms;
    }

    /// Live start is about to run: the buffered length starts again from zero.
    pub fn begin_live_start(&mut self)
        ensures
            final(self).buffer_ms_spec() == 0,
            final(self).state_spec() == old(self).state_spec(),
            final(self).running_spec() == old(self).running_spec(),
            final(self).mark_ns_spec() == old(self).mark_ns_spec(),
            final(self).last_error_spec() == old(self).last_error_spec(),
            final(self).test_mode_spec() == old(self).test_mode_spec(),
            final(self).disk_warning_spec() == old(self).disk_warning_spec(),
            final(self).buffer_error_spec() == old(self).buffer_error_spec(),
            final(self).sequence_spec() == old(self).sequence_spec(),
    {
        self.buffer_ms = 0;
    }

    /// Live capture started: capture is running, the mark is cleared and the
    /// state machine receives `InputReady`.
    pub fn on_live_started(&mut self) -> (r: Result<ReplayState, FsmError>)
        ensures
            final(self).running_spec(),
            final(self).mark_ns_spec() == 0,
            r == transition_result(old(self).state_spec(), ReplayEvent::InputReady),
            final(self).state_spec() == Self::state_after(old(self).state_spec(), ReplayEvent::InputReady),
            final(self).buffer_ms_spec() == old(self).buffer_ms_spec(),
            final(self).last_error_spec() == old(self).last_error_spec(),
            final(self).test_mode_spec() == old(self).test_mode_spec(),
            final(self).disk_warning_spec() == old(self).disk_warning_spec(),
            final(self).buffer_error_spec() == old(self).buffer_error_spec(),
            final(self).sequence_spec() == old(self).sequence_spec(),
    {
        self.capture_running = true;
        self.mark_timestamp_ns = 0;
        self.fsm.apply(ReplayEvent::InputReady)
    }

    /// Capture stopped: no capture and no mark; the replay state is kept.
    pub fn on_stopped(&mut self)
        ensures
            !final(self).running_spec(),
            final(self).mark_ns_spec() == 0,
            final(self).state_spec() == old(self).state_spec(),
            final(self).buffer_ms_spec() == old(self).buffer_ms_spec(),
            final(self).last_error_spec() == old(self).last_error_spec(),
            final(self).test_mode_spec() == old(self).test_mode_spec(),
            final(self).disk_warning_spec() == old(self).disk_warning_spec(),
            final(self).buffer_error_spec() == old(self).buffer_error_spec(),
            final(self).sequence_spec() == old(self).sequence_spec(),
    {
        self.capture_running = false;
        self.mark_timestamp_ns = 0;
    }

    /// Whether a mark may be taken now: capture must run and something must be
    /// recorded.
    pub fn check_mark_allowed(&self) -> (r: Result<(), MarkRefusal>)
        ensures
            !self.running_spec() ==> r == Err::<(), MarkRefusal>(MarkRefusal::CaptureNotRunning),
            self.running_spec() && self.buffer_ms_spec() == 0 ==> r == Err::<(), MarkRefusal>(
                MarkRefusal::BufferNotReady,
            ),
            self.running_spec() && self.buffer_ms_spec() > 0 ==> r is Ok,
    {
        if !self.capture_running {
            return Err(MarkRefusal::CaptureNotRunning);
        }
        if self.buffer_ms == 0 {
            return Err(MarkRefusal::BufferNotReady);
        }
        Ok(())
    }

    /// A mark was taken at wall-clock `unix_ms`: its timestamp (in ns) is stored
    /// and the state machine receives `Mark`; the timestamp stays stored even when
    /// the state machine rejects the event. Returns the timestamp on success.
    pub fn on_mark_taken(&mut self, unix_ms: i64) -> (r: Result<i64, FsmError>)
        requires
            i64::MIN <= unix_ms * 1_000_000 <= i64::MAX,
        ensures
            final(self).mark_ns_spec() == unix_ms * 1_000_000,
            match transition_result(old(self).state_spec(), ReplayEvent::Mark) {
                Ok(_) => r == Ok::<i64, FsmError>((unix_ms * 1_000_000) as i64),
                Err(e) => r == Err::<i64, FsmError>(e),
            },
            final(self).state_spec() == Self::state_after(old(self).state_spec(), ReplayEvent::Mark),
            final(self).running_spec() == old(self).running_spec(),
            final(self).buffer_ms_spec() == old(self).buffer_ms_spec(),
            final(self).last_error_spec() == old(self).last_error_spec(),
            final(self).test_mode_spec() == old(self).test_mode_spec(),
            final(self).disk_warning_spec() == old(self).disk_warning_spec(),
            final(self).buffer_error_spec() == old(self).buffer_error_spec(),
            final(self).sequence_spec() == old(self).sequence_spec(),
    {
        let mark_ns = unix_ms * 1_000_000;
        self.mark_timestamp_ns = mark_ns;
        match self.fsm.apply(ReplayEvent::Mark) {
            Ok(_) => Ok(mark_ns),
            Err(e) => Err(e),
        }
    }

    /// Clears the mark and sends `ClearMark` to the state machine.
    pub fn clear_mark(&mut self) -> (r: Result<ReplayState, FsmError>)
        ensures
            final(self).mark_ns_spec() == 0,
            r == transition_result(old(self).state_spec(), ReplayEvent::ClearMark),
            final(self).state_spec() == Self::state_after(old(self).state_spec(), ReplayEvent::ClearMark),
            final(self).running_spec() == old(self).running_spec(),
            final(self).buffer_ms_spec() == old(self).buffer_ms_spec(),
            final(self).last_error_spec() == old(self).last_error_spec(),
            final(self).test_mode_spec() == old(self).test_mode_spec(),
            final(self).disk_warning_spec() == old(self).disk_warning_spec(),
            final(self).buffer_error_spec() == old(self).buffer_error_spec(),
            final(self).sequence_spec() == old(self).sequence_spec(),
    {
        self.mark_timestamp_ns = 0;
        self.fsm.apply(ReplayEvent::ClearMark)
    }

    /// Where "replay" reads from in replay `mode`: the mark when the mode is not
    /// `last` and a mark is set (a stored timestamp or the `Marked` state), else
    /// the last `default_seconds`.
    pub fn plan_replay(&self, mode: &str, default_seconds: u32) -> (r: ReplaySource)
        ensures
            r == (if uses_mark_spec(
                mode@,
                self.mark_ns_spec() > 0 || self.state_spec() == ReplayState::Marked,
            ) {
                ReplaySource::FromMark
            } else {
                ReplaySource::LastSeconds { seconds: default_seconds }
            }),
    {
        let has_mark = self.mark_timestamp_ns > 0 || self.fsm.state() == ReplayState::Marked;
        if replay_uses_mark(mode, has_mark) {
            ReplaySource::FromMark
        } else {
            ReplaySource::LastSeconds { seconds: default_seconds }
        }
    }

    /// Starts a replay of `segment_count` segments. Refused, with the state left
    /// unchanged, when there is no segment or less than the minimum replay buffer;
    /// otherwise the state machine receives `Replay` (a mark is stored) or
    /// `ReplayLast`. On success returns the state before the replay, to which a
    /// failed replay rolls back.
    pub fn begin_replay(&mut self, segment_count: usize) -> (r: Result<ReplayState, ReplayRefusal>)
        ensures
            final(self).same_except_state(&*old(self)),
            segment_count == 0 ==> r == Err::<ReplayState, ReplayRefusal>(ReplayRefusal::NoSegments)
                && final(self).state_spec() == old(self).state_spec(),
            segment_count > 0 && old(self).buffer_ms_spec() < MIN_REPLAY_BUFFER_MS ==> r == Err::<
                ReplayState,
                ReplayRefusal,
            >(ReplayRefusal::BufferTooShort { available_ms: old(self).buffer_ms_spec() })
                && final(self).state_spec() == old(self).state_spec(),
            segment_count > 0 && old(self).buffer_ms_spec() >= MIN_REPLAY_BUFFER_MS ==> {
                let event = if old(self).mark_ns_spec() > 0 {
                    ReplayEvent::Replay
                } else {
                    ReplayEvent::ReplayLast
                };
                &&& final(self).state_spec() == Self::state_after(old(self).state_spec(), event)
                &&& match transition_result(old(self).state_spec(), event) {
                    Ok(_) => r == Ok::<ReplayState, ReplayRefusal>(old(self).state_spec()),
                    Err(e) => r == Err::<ReplayState, ReplayRefusal>(ReplayRefusal::Rejected(e)),
                }
            },
    {
        if segment_count == 0 {
            return Err(ReplayRefusal::NoSegments);
        }
        if self.buffer_ms < MIN_REPLAY_BUFFER_MS {
            return Err(ReplayRefusal::BufferTooShort { available_ms: self.buffer_ms });
        }
        let prior = self.fsm.state();
        let event = if self.mark_timestamp_ns > 0 {
            ReplayEvent::Replay
        } else {
            ReplayEvent::ReplayLast
        };
        match self.fsm.apply(event) {
            Ok(_) => Ok(prior),
            Err(e) => Err(ReplayRefusal::Rejected(e)),
        }
    }

    /// The pipeline could not start the replay: the state rolls back to `prior` and
    /// the error becomes the last error.
    pub fn replay_failed(&mut self, prior: ReplayState, error: String)
        ensures
            final(self).state_spec() == prior,
            final(self).last_error_spec() == error@,
            final(self).running_spec() == old(self).running_spec(),
            final(self).mark_ns_spec() == old(self).mark_ns_spec(),
            final(self).buffer_ms_spec() == old(self).buffer_ms_spec(),
            final(self).test_mode_spec() == old(self).test_mode_spec(),
            final(self).disk_warning_spec() == old(self).disk_warning_spec(),
            final(self).buffer_error_spec() == old(self).buffer_error_spec(),
            final(self).sequence_spec() == old(self).sequence_spec(),
    {
        self.fsm.force_state(prior);
        self.last_error = error;
    }

    /// The program output went back to live: `ReturnLive` is offered to the state
    /// machine (a rejection is ignored).
    pub fn on_returned_live(&mut self) -> (r: Result<ReplayState, FsmError>)
        ensures
            r == transition_result(old(self).state_spec(), ReplayEvent::ReturnLive),
            final(self).state_spec() == Self::state_after(old(self).state_spec(), ReplayEvent::ReturnLive),
            final(self).same_except_state(&*old(self)),
    {
        self.fsm.apply(ReplayEvent::ReturnLive)
    }

    /// The input signal was lost: `InputLost` is offered to the state machine and
    /// the last error says so.
    pub fn on_signal_lost(&mut self)
        ensures
            final(self).state_spec() == Self::state_after(old(self).state_spec(), ReplayEvent::InputLost),
            final(self).last_error_spec() == signal_lost_text(),
            final(self).running_spec() == old(self).running_spec(),
            final(self).mark_ns_spec() == old(self).mark_ns_spec(),
            final(self).buffer_ms_spec() == old(self).buffer_ms_spec(),
            final(self).test_mode_spec() == old(self).test_mode_spec(),
            final(self).disk_warning_spec() == old(self).disk_warning_spec(),
            final(self).buffer_error_spec() == old(self).buffer_error_spec(),
            final(self).sequence_spec() == old(self).sequence_spec(),
    {
        let _ = self.fsm.apply(ReplayEvent::InputLost);
        self.last_error = String::from_str("Input signal lost");
    }

    /// The input signal came back: from `NoSignal` the state machine receives
    /// `InputReady`; the last error is cleared.
    pub fn on_signal_restored(&mut self)
        ensures
            old(self).state_spec() == ReplayState::NoSignal ==> final(self).state_spec()
                == ReplayState::Live,
            old(self).state_spec() != ReplayState::NoSignal ==> final(self).state_spec() == old(
                self,
            ).state_spec(),
            final(self).last_error_spec().len() == 0,
            final(self).running_spec() == old(self).running_spec(),
            final(self).mark_ns_spec() == old(self).mark_ns_spec(),
            final(self).buffer_ms_spec() == old(self).buffer_ms_spec(),
            final(self).test_mode_spec() == old(self).test_mode_spec(),
            final(self).disk_warning_spec() == old(self).disk_warning_spec(),
            final(self).buffer_error_spec() == old(self).buffer_error_spec(),
            final(self).sequence_spec() == old(self).sequence_spec(),
    {
        if self.fsm.state() == ReplayState::NoSignal {
            let _ = self.fsm.apply(ReplayEvent::InputReady);
        }
        self.last_error = String::new();
    }

    /// Whether the end of a replay needs the program output switched back to live.
    pub fn replay_finished_needs_return(&self) -> (r: bool)
        ensures
            r == (self.state_spec() == ReplayState::Replaying),
    {
        self.fsm.state() == ReplayState::Replaying
    }

    /// A replay ran to its end: while still replaying, the state machine goes
    /// through `ReplayFinished` and `Recover` back to `Live`.
    pub fn complete_replay_finished(&mut self)
        ensures
            old(self).state_spec() == ReplayState::Replaying ==> final(self).state_spec()
                == ReplayState::Live,
            old(self).state_spec() != ReplayState::Replaying ==> final(self).state_spec() == old(
                self,
            ).state_spec(),
            final(self).same_except_state(&*old(self)),
    {
        if self.fsm.state() == ReplayState::Replaying {
            let _ = self.fsm.apply(ReplayEvent::ReplayFinished);
            let _ = self.fsm.apply(ReplayEvent::Recover);
        }
    }

    /// Takes the storage alarms into the status: the disk warning and the buffer
    /// error (disk full) flags, and the matching last error (a slow disk only when
    /// no other error is shown).
    pub fn update_storage(&mut self, storage: Option<StorageMonitor>)
        ensures
            match storage {
                None => {
                    &&& final(self).disk_warning_spec() == old(self).disk_warning_spec()
                    &&& final(self).buffer_error_spec() == old(self).buffer_error_spec()
                    &&& final(self).last_error_spec() == old(self).last_error_spec()
                },
                Some(m) => {
                    &&& final(self).disk_warning_spec() == m.warning_flag()
                    &&& final(self).buffer_error_spec() == m.full_flag()
                    &&& final(self).last_error_spec() == (if m.full_flag() {
                        disk_full_text()
                    } else if m.slow_flag() && old(self).last_error_spec().len() == 0 {
                        slow_disk_text()
                    } else {
                        old(self).last_error_spec()
                    })
                },
            },
            final(self).state_spec() == old(self).state_spec(),
            final(self).running_spec() == old(self).running_spec(),
            final(self).mark_ns_spec() == old(self).mark_ns_spec(),
            final(self).buffer_ms_spec() == old(self).buffer_ms_spec(),
            final(self).test_mode_spec() == old(self).test_mode_spec(),
            final(self).sequence_spec() == old(self).sequence_spec(),
    {
        if let Some(m) = storage {
            self.disk_warning = m.disk_warning();
            self.buffer_error = m.disk_full();
            if m.disk_full() {
                self.last_error = String::from_str("Buffer disk full — recording stopped");
            } else if m.slow_disk() && self.last_error.as_str().is_empty() {
                self.last_error = String::from_str("Slow disk writes — check storage");
            }
        }
    }

    /// A full buffer disk stops recording: from `Live` or `Marked` the state
    /// machine receives `InputLost`.
    pub fn check_storage_alarms(&mut self, disk_full: bool)
        ensures
            disk_full && (old(self).state_spec() == ReplayState::Live || old(self).state_spec()
                == ReplayState::Marked) ==> final(self).state_spec() == ReplayState::NoSignal,
            !(disk_full && (old(self).state_spec() == ReplayState::Live || old(self).state_spec()
                == ReplayState::Marked)) ==> final(self).state_spec() == old(self).state_spec(),
            final(self).same_except_state(&*old(self)),
    {
        if disk_full {
            let state = self.fsm.state();
            if state == ReplayState::Live || state == ReplayState::Marked {
                let _ = self.fsm.apply(ReplayEvent::InputLost);
            }
        }
    }

    /// The engine is ready for operators: capture runs, the buffer disk is fine, and
    /// the state is `Live`, `Marked` or `Replaying`.
    pub fn engine_ready(&self) -> (r: bool)
        ensures
            r == (self.running_spec() && !self.buffer_error_spec() && (self.state_spec()
                == ReplayState::Live || self.state_spec() == ReplayState::Marked || self.state_spec()
                == ReplayState::Replaying)),
    {
        if !self.capture_running {
            return false;
        }
        let state = self.fsm.state();
        if self.buffer_error {
            return false;
        }
        state == ReplayState::Live || state == ReplayState::Marked || state == ReplayState::Replaying
    }

    /// The status record with sequence number `sequence`.
    pub open spec fn status_matches(&self, s: EngineStatus, sequence: u64) -> bool {
        &&& s.state == self.state_spec()
        &&& s.buffer_ms_available == self.buffer_ms_spec()
        &&& s.disk_warning == self.disk_warning_spec()
        &&& s.last_error@ == self.last_error_spec()
        &&& s.buffer_ready == (self.buffer_ms_spec() > 0)
        &&& s.buffer_error == self.buffer_error_spec()
        &&& s.mark_timestamp_ns == (if self.state_spec() == ReplayState::Marked {
            self.mark_ns_spec()
        } else {
            0
        })
        &&& s.sequence == sequence
    }

    fn snapshot(&self, sequence: u64) -> (r: EngineStatus)
        ensures
            self.status_matches(r, sequence),
    {
        let state = self.fsm.state();
        EngineStatus {
            state,
            buffer_ms_available: self.buffer_ms,
            disk_warning: self.disk_warning,
            last_error: self.last_error.clone(),
            buffer_ready: self.buffer_ms > 0,
            buffer_error: self.buffer_error,
            mark_timestamp_ns: if state == ReplayState::Marked {
                self.mark_timestamp_ns
            } else {
                0
            },
            sequence,
        }
    }

    /// The current status after taking the storage alarms into account; the
    /// sequence number is not advanced. The mark timestamp is reported only while
    /// `Marked`.
    pub fn status_snapshot(&mut self, storage: Option<StorageMonitor>) -> (r: EngineStatus)
        ensures
            final(self).status_matches(r, old(self).sequence_spec()),
            final(self).state_spec() == old(self).state_spec(),
            final(self).sequence_spec() == old(self).sequence_spec(),
    {
        self.update_storage(storage);
        self.snapshot(self.sequence)
    }

    /// The status to broadcast: storage alarms are applied (a full disk stops a
    /// live or marked recording), then the status carries the current sequence
    /// number, which advances by one (wrapping).
    pub fn publish_status(&mut self, storage: Option<StorageMonitor>) -> (r: EngineStatus)
        ensures
            final(self).status_matches(r, old(self).sequence_spec()),
            final(self).sequence_spec() == old(self).sequence_spec().wrapping_add(1),
            ({
                let full = match storage {
                    Some(m) => m.full_flag(),
                    None => false,
                };
                &&& full && (old(self).state_spec() == ReplayState::Live || old(self).state_spec()
                    == ReplayState::Marked) ==> final(self).state_spec() == ReplayState::NoSignal
                &&& !(full && (old(self).state_spec() == ReplayState::Live || old(self).state_spec()
                    == ReplayState::Marked)) ==> final(self).state_spec() == old(self).state_spec()
            }),
    {
        let full = match &storage {
            Some(m) => m.disk_full(),
            None => false,
        };
        self.update_storage(storage);
        self.check_storage_alarms(full);
        let seq = self.sequence;
        self.sequence = self.sequence.wrapping_add(1);
        let r = self.snapshot(seq);
        r
    }
}

} // verus!
