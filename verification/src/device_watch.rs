//! Decisions of the capture-device watch: autostart with backoff while idle, and
//! signal loss / restore notifications when the live device disappears or comes
//! back. The watch loop itself (sleeping, probing, starting) runs outside and
//! feeds the results of each step back in.
use vstd::prelude::*;

use crate::buffer::{saturating_sub_i64, saturating_sub_spec};
use crate::devices::{short_error_spec, short_operator_error, CaptureDevice};
use crate::fsm::ReplayState;
use crate::text::{chars_eq, str_chars};

verus! {

/// Seconds between watch ticks.
pub const WATCH_TICK_SECS: u64 = 3;

/// First and smallest autostart backoff, in seconds.
pub const MIN_BACKOFF_SECS: u64 = 5;

/// Largest autostart backoff, in seconds.
pub const MAX_BACKOFF_SECS: u64 = 60;

/// How long before the watch starts the last attempt is taken to be (so the first
/// attempt is never held back).
pub const INITIAL_ATTEMPT_AGE_MS: i64 = 120_000;

/// What the watch asks for after checking the live device.
#[derive(Debug, Clone, Copy, PartialEq, Eq, Structural)]
pub enum WatchNotice {
    /// Nothing changed.
    Quiet,
    /// The live device disappeared: report a signal loss.
    SignalLost,
    /// The live device came back: report that the signal is restored.
    SignalRestored,
}

/// State kept by the watch between ticks.
#[derive(Debug)]
pub struct DeviceWatch {
    device_missing: bool,
    backoff_secs: u64,
    last_error_key: String,
    last_attempt_ms: i64,
}

/// States in which an idle engine tries to start capture on its own.
pub open spec fn autostart_state(s: ReplayState) -> bool {
    s is Starting || s is NoSignal || s is ErrorRecovery
}

/// States in which the live device is watched for disconnection.
pub open spec fn watched_state(s: ReplayState) -> bool {
    s is Live || s is Marked || s is Replaying
}

/// The backoff after a failed autostart whose operator text is `key`: doubled
/// (capped at 60 s) when the same error repeats, else back to 5 s.
pub open spec fn backoff_after_failure(backoff: u64, last_key: Seq<char>, key: Seq<char>) -> u64 {
    if key == last_key {
        if backoff * 2 < MAX_BACKOFF_SECS {
            (backoff * 2) as u64
        } else {
            MAX_BACKOFF_SECS
        }
    } else {
        MIN_BACKOFF_SECS
    }
}

/// The missing flag and notice after seeing whether the live device is present.
pub open spec fn presence_step(missing: bool, present: bool) -> (bool, WatchNotice) {
    if !present && !missing {
        (true, WatchNotice::SignalLost)
    } else if present && missing {
        (false, WatchNotice::SignalRestored)
    } else {
        (missing, WatchNotice::Quiet)
    }
}

/// Some listed device has the id `id`.
pub open spec fn device_listed(devices: Seq<CaptureDevice>, id: Seq<char>) -> bool {
    exists|i: int| 0 <= i < devices.len() && (#[trigger] devices[i]).id@ == id
}

impl DeviceWatch {
    /// Whether the live device is currently considered missing.
    pub closed spec fn missing(&self) -> bool {
        self.device_missing
    }

    /// Current autostart backoff in seconds.
    pub closed spec fn backoff(&self) -> u64 {
        self.backoff_secs
    }

    /// Operator text of the last failed autostart (empty after a success).
    pub closed spec fn error_key(&self) -> Seq<char> {
        self.last_error_key@
    }

    /// When the last autostart attempt (or probe) happened.
    pub closed spec fn last_attempt(&self) -> i64 {
        self.last_attempt_ms
    }

    /// The backoff stays between 5 and 60 seconds.
    pub open spec fn wf(&self) -> bool {
        MIN_BACKOFF_SECS <= self.backoff() <= MAX_BACKOFF_SECS
    }

    /// A fresh watch at monotonic time `now_ms`.
    pub fn new(now_ms: i64) -> (r: Self)
        ensures
            r.wf(),
            !r.missing(),
            r.backoff() == MIN_BACKOFF_SECS,
            r.error_key() == Seq::<char>::empty(),
            r.last_attempt() == saturating_sub_spec(now_ms, INITIAL_ATTEMPT_AGE_MS),
    {
        DeviceWatch {
            device_missing: false,
            backoff_secs: MIN_BACKOFF_SECS,
            last_error_key: String::new(),
            last_attempt_ms: saturating_sub_i64(now_ms, INITIAL_ATTEMPT_AGE_MS),
        }
    }

    pub fn device_missing(&self) -> (r: bool)
        ensures
            r == self.missing(),
    {
        self.device_missing
    }

    pub fn backoff_secs(&self) -> (r: u64)
        ensures
            r == self.backoff(),
    {
        self.backoff_secs
    }

    /// A tick while capture is not running: clears the missing flag and says
    /// whether to look for capture devices now (the engine waits for hardware,
    /// no start is in progress, and the backoff since the last attempt has passed).
    pub fn idle_tick(&mut self, state: ReplayState, start_in_progress: bool, now_ms: i64) -> (r: bool)
        requires
            old(self).wf(),
        ensures
            final(self).wf(),
            !final(self).missing(),
            final(self).backoff() == old(self).backoff(),
            final(self).error_key() == old(self).error_key(),
            final(self).last_attempt() == old(self).last_attempt(),
            r == (autostart_state(state) && !start_in_progress && saturating_sub_spec(now_ms, old(self).last_attempt())
                >= old(self).backoff() * 1000),
    {
        self.device_missing = false;
        if !(matches!(state, ReplayState::Starting) || matches!(state, ReplayState::NoSignal) || matches!(
            state,
            ReplayState::ErrorRecovery
        )) {
            return false;
        }
        if start_in_progress {
            return false;
        }
        let elapsed = saturating_sub_i64(now_ms, self.last_attempt_ms);
        let backoff_ms = (self.backoff_secs * 1000) as i64;
        elapsed >= backoff_ms
    }

    /// Records a device probe made at `now_ms`; returns whether to attempt an
    /// autostart (some capture device was found).
    pub fn record_probe(&mut self, devices_found: bool, now_ms: i64) -> (r: bool)
        requires
            old(self).wf(),
        ensures
            final(self).wf(),
            final(self).missing() == old(self).missing(),
            final(self).backoff() == old(self).backoff(),
            final(self).error_key() == old(self).error_key(),
            final(self).last_attempt() == now_ms,
            r == devices_found,
    {
        self.last_attempt_ms = now_ms;
        devices_found
    }

    /// Records the outcome of an autostart: `None` on success, else the raw error
    /// text. Success resets the backoff; a repeated error doubles it (up to 60 s),
    /// a new one resets it and is remembered.
    pub fn record_autostart(&mut self, error: Option<&str>)
        requires
            old(self).wf(),
        ensures
            final(self).wf(),
            final(self).missing() == old(self).missing(),
            final(self).last_attempt() == old(self).last_attempt(),
            match error {
                None => final(self).backoff() == MIN_BACKOFF_SECS && final(self).error_key()
                    == Seq::<char>::empty(),
                Some(raw) => {
                    &&& final(self).backoff() == backoff_after_failure(
                        old(self).backoff(),
                        old(self).error_key(),
                        short_error_spec(raw@),
                    )
                    &&& final(self).error_key() == short_error_spec(raw@)
                },
            },
    {
        match error {
            None => {
                self.backoff_secs = MIN_BACKOFF_SECS;
                self.last_error_key = String::new();
            },
            Some(raw) => {
                let key = short_operator_error(raw);
                let kv = str_chars(key.as_str());
                let lv = str_chars(self.last_error_key.as_str());
                if chars_eq(&kv, &lv) {
                    let doubled = self.backoff_secs * 2;
                    self.backoff_secs = if doubled < MAX_BACKOFF_SECS {
                        doubled
                    } else {
                        MAX_BACKOFF_SECS
                    };
                } else {
                    self.last_error_key = key;
                    self.backoff_secs = MIN_BACKOFF_SECS;
                }
            },
        }
    }

    /// A tick while capture is running: says whether to check for the configured
    /// device. The test pattern and an empty id are never checked; outside the
    /// live states the missing flag is cleared.
    pub fn live_tick(&mut self, device_id: &str, state: ReplayState) -> (r: bool)
        requires
            old(self).wf(),
        ensures
            final(self).wf(),
            final(self).backoff() == old(self).backoff(),
            final(self).error_key() == old(self).error_key(),
            final(self).last_attempt() == old(self).last_attempt(),
            r == (device_id@.len() > 0 && device_id@ != "test"@ && watched_state(state)),
            final(self).missing() == (if device_id@.len() == 0 || device_id@ == "test"@ {
                old(self).missing()
            } else if watched_state(state) {
                old(self).missing()
            } else {
                false
            }),
    {
        let v = str_chars(device_id);
        if v.len() == 0 || crate::text::chars_eq_str(&v, "test") {
            return false;
        }
        if !(matches!(state, ReplayState::Live) || matches!(state, ReplayState::Marked) || matches!(
            state,
            ReplayState::Replaying
        )) {
            self.device_missing = false;
            return false;
        }
        true
    }

    /// Records whether the configured device is among `devices` and says which
    /// notice to raise: a loss the first time it is missing, a restore when it
    /// returns.
    pub fn record_presence(&mut self, device_id: &str, devices: &Vec<CaptureDevice>) -> (r: WatchNotice)
        requires
            old(self).wf(),
        ensures
            final(self).wf(),
            final(self).backoff() == old(self).backoff(),
            final(self).error_key() == old(self).error_key(),
            final(self).last_attempt() == old(self).last_attempt(),
            (final(self).missing(), r) == presence_step(
                old(self).missing(),
                device_listed(devices@, device_id@),
            ),
    {
        let id = str_chars(device_id);
        let mut present = false;
        let mut i: usize = 0;
        while i < devices.len()
            invariant
                i <= devices@.len(),
                id@ == device_id@,
                present == (exists|k: int| 0 <= k < i && (#[trigger] devices@[k]).id@ == device_id@),
            decreases devices@.len() - i,
        {
            let d = str_chars(devices[i].id.as_str());
            if chars_eq(&d, &id) {
                present = true;
            }
            i = i + 1;
        }
        if !present && !self.device_missing {
            self.device_missing = true;
            WatchNotice::SignalLost
        } else if present && self.device_missing {
            self.device_missing = false;
            WatchNotice::SignalRestored
        } else {
            WatchNotice::Quiet
        }
    }
}

/// A disconnection is reported once: while the device stays away, later checks
/// are quiet, and the loss is followed by exactly one restore when it returns.
pub proof fn law_signal_loss_reported_once(missing: bool)
    ensures
        presence_step(presence_step(missing, false).0, false).1 == WatchNotice::Quiet,
        !missing ==> presence_step(missing, false).1 == WatchNotice::SignalLost,
        presence_step(presence_step(missing, false).0, true).1 == WatchNotice::SignalRestored,
        presence_step(presence_step(presence_step(missing, false).0, true).0, true).1
            == WatchNotice::Quiet,
{
}

/// The autostart backoff never leaves 5..=60 s, whatever errors repeat.
pub proof fn law_backoff_bounded(backoff: u64, last_key: Seq<char>, key: Seq<char>)
    requires
        MIN_BACKOFF_SECS <= backoff <= MAX_BACKOFF_SECS,
    ensures
        MIN_BACKOFF_SECS <= backoff_after_failure(backoff, last_key, key) <= MAX_BACKOFF_SECS,
        key == last_key ==> backoff_after_failure(backoff, last_key, key) >= backoff,
{
}

} // verus!
