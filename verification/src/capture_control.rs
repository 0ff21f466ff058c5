//! Decisions of the running capture pipeline and of the thread that owns it: how
//! a pipeline is dimensioned, how bus messages are answered, when the status
//! overlay changes, how a replay is seeked, and which steps each runtime request
//! takes. The pipeline operations themselves are carried out by the caller.
use vstd::prelude::*;

use crate::config::{configured_resolution_spec, AppConfig};
use crate::text::{
    chars_contain_str, decimal, decimal_u64, push_chars, seq_contains, str_chars, string_from_chars,
};

verus! {

/// Capture dimensions used when the configured resolution is automatic or does not
/// parse.
pub open spec fn default_capture_size() -> (u32, u32) {
    (1920, 1080)
}

/// The (width, height, fps) a capture pipeline is built with: the configured
/// resolution (1920x1080 when automatic or unparsable) and at least 1 fps.
pub open spec fn capture_geometry_spec(config: AppConfig) -> (u32, u32, u32) {
    let (w, h) = match configured_resolution_spec(config.input.resolution@) {
        Some(p) => p,
        None => default_capture_size(),
    };
    (w, h, if config.input.fps > 1 { config.input.fps } else { 1 })
}

pub fn capture_geometry(config: &AppConfig) -> (r: (u32, u32, u32))
    ensures
        r == capture_geometry_spec(*config),
{
    let (w, h) = match config.parse_resolution() {
        Some(p) => p,
        None => (1920, 1080),
    };
    let fps = if config.input.fps > 1 {
        config.input.fps
    } else {
        1
    };
    (w, h, fps)
}

/// `WxH` as the configuration writes a resolution.
pub open spec fn resolution_text_spec(width: u32, height: u32) -> Seq<char> {
    decimal(width as nat) + "x"@ + decimal(height as nat)
}

pub fn resolution_text(width: u32, height: u32) -> (r: String)
    ensures
        r@ == resolution_text_spec(width, height),
{
    let mut v = decimal_u64(width as u64);
    v.push('x');
    let h = decimal_u64(height as u64);
    push_chars(&mut v, &h);
    proof {
        reveal_strlit("x");
        assert(decimal(width as nat).push('x') + decimal(height as nat) =~= decimal(width as nat)
            + "x"@ + decimal(height as nat));
    }
    string_from_chars(&v)
}

/// The configuration live capture starts with: the chosen mode written into the
/// input section.
pub fn live_config(config: &AppConfig, width: u32, height: u32, fps: u32) -> (r: AppConfig)
    ensures
        r.input.resolution@ == resolution_text_spec(width, height),
        r.input.fps == fps,
        r.input.device_id == config.input.device_id,
        r.input.pixel_format == config.input.pixel_format,
        r.output == config.output,
        r.replay == config.replay,
        r.storage == config.storage,
        r.hotkeys == config.hotkeys,
        r.appliance == config.appliance,
        r.operator == config.operator,
{
    let mut c = config.clone();
    c.input.resolution = resolution_text(width, height);
    c.input.fps = fps;
    c
}

/// Element path names of the capture sources.
pub open spec fn capture_source_path(p: Seq<char>) -> bool {
    ||| seq_contains(p, "avfvideosrc"@)
    ||| seq_contains(p, "v4l2src"@)
    ||| seq_contains(p, "ksvideosrc"@)
    ||| seq_contains(p, "dshowvideosrc"@)
    ||| seq_contains(p, "videotestsrc"@)
}

/// Whether the element at `path` is a capture source.
pub fn is_capture_source_element(path: &str) -> (r: bool)
    ensures
        r == capture_source_path(path@),
{
    let v = str_chars(path);
    chars_contain_str(&v, "avfvideosrc") || chars_contain_str(&v, "v4l2src") || chars_contain_str(
        &v,
        "ksvideosrc",
    ) || chars_contain_str(&v, "dshowvideosrc") || chars_contain_str(&v, "videotestsrc")
}

/// Whether an error or warning came from a capture source (`None`: no source).
pub fn is_capture_source_error(src_path: Option<&str>) -> (r: bool)
    ensures
        r == match src_path {
            Some(p) => capture_source_path(p@),
            None => false,
        },
{
    match src_path {
        Some(p) => is_capture_source_element(p),
        None => false,
    }
}

/// Pipeline element states, lowest first.
#[derive(Debug, Clone, Copy, PartialEq, Eq, Structural)]
pub enum StreamState {
    VoidPending,
    Null,
    Ready,
    Paused,
    Playing,
}

/// Rank of a state in the order `VoidPending < Null < Ready < Paused < Playing`.
pub open spec fn state_rank(s: StreamState) -> int {
    match s {
        StreamState::VoidPending => 0,
        StreamState::Null => 1,
        StreamState::Ready => 2,
        StreamState::Paused => 3,
        StreamState::Playing => 4,
    }
}

fn state_rank_exec(s: StreamState) -> (r: u8)
    ensures
        r == state_rank(s),
{
    match s {
        StreamState::VoidPending => 0,
        StreamState::Null => 1,
        StreamState::Ready => 2,
        StreamState::Paused => 3,
        StreamState::Playing => 4,
    }
}

/// A capture-pipeline bus message, as plain values.
#[derive(Debug)]
pub enum BusEvent {
    EndOfStream,
    Error { src_path: Option<String> },
    Warning { src_path: Option<String> },
    StateChanged { src_path: String, old: StreamState, current: StreamState },
    Other,
}

/// What the pipeline reports in answer to a bus message.
#[derive(Debug, Clone, Copy, PartialEq, Eq, Structural)]
pub enum BusReaction {
    Nothing,
    ReplayFinished,
    SignalLost,
    SignalRestored,
}

/// Which listeners are attached to the pipeline.
#[derive(Debug, Clone, Copy, PartialEq, Eq, Structural)]
pub struct BusListeners {
    pub replay_finished: bool,
    pub signal_lost: bool,
    pub signal_restored: bool,
}

/// The answer to a bus message: the end of a running replay (once), a loss when a
/// capture source errs or warns, a restore when a capture source reaches playing
/// from a lower state; each only when someone listens.
pub open spec fn bus_reaction_spec(replay_active: bool, ev: BusEvent, listeners: BusListeners) -> BusReaction {
    match ev {
        BusEvent::EndOfStream => if replay_active && listeners.replay_finished {
            BusReaction::ReplayFinished
        } else {
            BusReaction::Nothing
        },
        BusEvent::Error { src_path } => if (src_path matches Some(p) && capture_source_path(p@))
            && listeners.signal_lost {
            BusReaction::SignalLost
        } else {
            BusReaction::Nothing
        },
        BusEvent::Warning { src_path } => if (src_path matches Some(p) && capture_source_path(p@))
            && listeners.signal_lost {
            BusReaction::SignalLost
        } else {
            BusReaction::Nothing
        },
        BusEvent::StateChanged { src_path, old, current } => if capture_source_path(src_path@)
            && current is Playing && state_rank(old) < state_rank(StreamState::Playing)
            && listeners.signal_restored {
            BusReaction::SignalRestored
        } else {
            BusReaction::Nothing
        },
        BusEvent::Other => BusReaction::Nothing,
    }
}

/// Answers a bus message; a reported end of replay clears `replay_active`.
pub fn bus_reaction(replay_active: &mut bool, ev: &BusEvent, listeners: BusListeners) -> (r: BusReaction)
    ensures
        r == bus_reaction_spec(*old(replay_active), *ev, listeners),
        *final(replay_active) == (*old(replay_active) && r != BusReaction::ReplayFinished),
{
    match ev {
        BusEvent::EndOfStream => {
            if *replay_active && listeners.replay_finished {
                *replay_active = false;
                BusReaction::ReplayFinished
            } else {
                BusReaction::Nothing
            }
        },
        BusEvent::Error { src_path } => {
            let p = match src_path {
                Some(s) => Some(s.as_str()),
                None => None,
            };
            if is_capture_source_error(p) && listeners.signal_lost {
                BusReaction::SignalLost
            } else {
                BusReaction::Nothing
            }
        },
        BusEvent::Warning { src_path } => {
            let p = match src_path {
                Some(s) => Some(s.as_str()),
                None => None,
            };
            if is_capture_source_error(p) && listeners.signal_lost {
                BusReaction::SignalLost
            } else {
                BusReaction::Nothing
            }
        },
        BusEvent::StateChanged { src_path, old, current } => {
            if is_capture_source_element(src_path.as_str()) && matches!(current, StreamState::Playing)
                && state_rank_exec(*old) < 4 && listeners.signal_restored {
                BusReaction::SignalRestored
            } else {
                BusReaction::Nothing
            }
        },
        BusEvent::Other => BusReaction::Nothing,
    }
}

/// Overlay changes on the program output.
#[derive(Debug, Clone, Copy, PartialEq, Eq, Structural)]
pub enum OverlayChange {
    Unchanged,
    /// Show the no-signal (black) overlay.
    Black,
    /// Show `LIVE`.
    Live,
}

/// Tracks whether the capture source is in error, for the status overlay.
#[derive(Debug, Clone, Copy, PartialEq, Eq, Structural)]
pub struct SignalOverlay {
    pub had_signal_error: bool,
}

impl SignalOverlay {
    pub fn new() -> (r: Self)
        ensures
            !r.had_signal_error,
    {
        SignalOverlay { had_signal_error: false }
    }

    /// A signal loss: the first one of an outage turns the overlay black (when
    /// the overlay is shown); repeats change nothing.
    pub fn on_signal_lost(&mut self, show_overlay: bool) -> (r: OverlayChange)
        ensures
            final(self).had_signal_error,
            r == (if !old(self).had_signal_error && show_overlay {
                OverlayChange::Black
            } else {
                OverlayChange::Unchanged
            }),
    {
        if !self.had_signal_error {
            self.had_signal_error = true;
            if show_overlay {
                return OverlayChange::Black;
            }
        }
        OverlayChange::Unchanged
    }

    /// A restored signal after an outage puts `LIVE` back (when the overlay is
    /// shown); without an outage nothing changes.
    pub fn on_signal_restored(&mut self, show_overlay: bool) -> (r: OverlayChange)
        ensures
            !final(self).had_signal_error,
            r == (if old(self).had_signal_error && show_overlay {
                OverlayChange::Live
            } else {
                OverlayChange::Unchanged
            }),
    {
        if self.had_signal_error {
            self.had_signal_error = false;
            if show_overlay {
                return OverlayChange::Live;
            }
        }
        OverlayChange::Unchanged
    }
}

/// Why a replay cannot start.
#[derive(Debug, Clone, Copy, PartialEq, Eq, Structural)]
pub enum ReplayStartError {
    NoSegments,
}

impl ReplayStartError {
    pub fn message(&self) -> (r: String)
        ensures
            r@ == "no segments to replay"@,
    {
        String::from_str("no segments to replay")
    }
}

/// How a replay is positioned.
#[derive(Debug, Clone, Copy, PartialEq, Eq, Structural)]
pub struct ReplaySeekPlan {
    /// A position seek is made (only on a single file, where it is reliable).
    pub allow_position: bool,
    /// The mark offset is dropped because several segments play.
    pub offset_skipped: bool,
    /// Start position of the seek, in nanoseconds.
    pub start_ns: u64,
    /// A failed seek aborts the replay (only when a position was asked for).
    pub seek_failure_fatal: bool,
}

/// The positioning of a replay of `segment_count > 0` segments: a position seek
/// only on a single file (where it is reliable; a failed seek then aborts), the
/// mark offset dropped for several files.
pub open spec fn seek_plan_spec(segment_count: usize, first_offset_ms: u64) -> ReplaySeekPlan {
    let allow_position = segment_count == 1;
    ReplaySeekPlan {
        allow_position,
        offset_skipped: first_offset_ms > 0 && !allow_position,
        start_ns: if first_offset_ms > 0 && allow_position {
            if first_offset_ms * 1_000_000 > u64::MAX {
                u64::MAX
            } else {
                (first_offset_ms * 1_000_000) as u64
            }
        } else {
            0
        },
        seek_failure_fatal: allow_position,
    }
}

/// Plans the positioning of a replay of `segment_count` segments starting
/// `first_offset_ms` into the first one.
pub fn replay_seek_plan(segment_count: usize, first_offset_ms: u64) -> (r: Result<ReplaySeekPlan, ReplayStartError>)
    ensures
        segment_count == 0 ==> r == Err::<ReplaySeekPlan, ReplayStartError>(ReplayStartError::NoSegments),
        segment_count > 0 ==> (r matches Ok(p) && p == seek_plan_spec(segment_count, first_offset_ms)),
{
    if segment_count == 0 {
        return Err(ReplayStartError::NoSegments);
    }
    let allow_position = segment_count == 1;
    let start_ns: u64 = if first_offset_ms > 0 && allow_position {
        if first_offset_ms > u64::MAX / 1_000_000 {
            u64::MAX
        } else {
            first_offset_ms * 1_000_000
        }
    } else {
        0
    };
    Ok(ReplaySeekPlan {
        allow_position,
        offset_skipped: first_offset_ms > 0 && !allow_position,
        start_ns,
        seek_failure_fatal: allow_position,
    })
}

// ---------------------------------------------------------------------------
// The runtime thread that owns the pipeline
// ---------------------------------------------------------------------------

/// What the runtime thread knows between requests.
#[derive(Debug, Clone, Copy, PartialEq, Eq, Structural)]
pub struct RuntimeState {
    pub capture_running: bool,
    pub show_overlay: bool,
    pub headless: bool,
}

/// A request to the runtime thread.
#[derive(Debug, Clone, Copy, PartialEq, Eq, Structural)]
pub enum RuntimeRequest {
    StartLive { show_status_overlay: bool },
    Stop,
    ReplaySegments,
    ReturnLive,
    SignalLost,
    SignalRestored,
    Shutdown,
}

/// One step the runtime thread carries out.
#[derive(Debug, Clone, Copy, PartialEq, Eq, Structural)]
pub enum RuntimeStep {
    /// Stop and drop the running capture pipeline.
    StopCapture,
    /// Close the program window.
    CloseWindow,
    /// Open the window, build and start a capture pipeline, and show `LIVE` when
    /// `overlay_live`.
    StartCapture { headless: bool, overlay_live: bool },
    StartReplay { show_overlay: bool },
    ReturnToLive { show_overlay: bool },
    NotifySignalLost { show_overlay: bool },
    NotifySignalRestored { show_overlay: bool },
    /// Answer with the error `capture not running`.
    NotRunning,
}

/// The steps a request takes from `state`.
pub open spec fn runtime_steps(state: RuntimeState, req: RuntimeRequest) -> Seq<RuntimeStep> {
    let stop: Seq<RuntimeStep> = if state.capture_running {
        seq![RuntimeStep::StopCapture]
    } else {
        Seq::empty()
    };
    match req {
        RuntimeRequest::StartLive { show_status_overlay } => stop.push(
            RuntimeStep::StartCapture { headless: state.headless, overlay_live: show_status_overlay },
        ),
        RuntimeRequest::Stop => stop.push(RuntimeStep::CloseWindow),
        RuntimeRequest::Shutdown => stop.push(RuntimeStep::CloseWindow),
        RuntimeRequest::ReplaySegments => if state.capture_running {
            seq![RuntimeStep::StartReplay { show_overlay: state.show_overlay }]
        } else {
            seq![RuntimeStep::NotRunning]
        },
        RuntimeRequest::ReturnLive => if state.capture_running {
            seq![RuntimeStep::ReturnToLive { show_overlay: state.show_overlay }]
        } else {
            seq![RuntimeStep::NotRunning]
        },
        RuntimeRequest::SignalLost => if state.capture_running {
            seq![RuntimeStep::NotifySignalLost { show_overlay: state.show_overlay }]
        } else {
            Seq::empty()
        },
        RuntimeRequest::SignalRestored => if state.capture_running {
            seq![RuntimeStep::NotifySignalRestored { show_overlay: state.show_overlay }]
        } else {
            Seq::empty()
        },
    }
}

/// The state once the steps have been taken (`started`: a `StartCapture` step
/// succeeded).
pub open spec fn runtime_after(state: RuntimeState, req: RuntimeRequest, started: bool) -> RuntimeState {
    match req {
        RuntimeRequest::StartLive { show_status_overlay } => RuntimeState {
            capture_running: started,
            show_overlay: show_status_overlay,
            headless: state.headless,
        },
        RuntimeRequest::Stop => RuntimeState { capture_running: false, ..state },
        RuntimeRequest::Shutdown => RuntimeState { capture_running: false, ..state },
        _ => state,
    }
}

/// Plans a request: returns its steps and moves `state` to the state that holds
/// while they run (a running capture is dropped before a new one starts).
pub fn plan_runtime_request(state: &mut RuntimeState, req: RuntimeRequest) -> (r: Vec<RuntimeStep>)
    ensures
        r@ == runtime_steps(*old(state), req),
        *final(state) == runtime_after(*old(state), req, false),
{
    let mut steps: Vec<RuntimeStep> = Vec::new();
    let running = state.capture_running;
    match req {
        RuntimeRequest::StartLive { show_status_overlay } => {
            if running {
                steps.push(RuntimeStep::StopCapture);
            }
            state.capture_running = false;
            state.show_overlay = show_status_overlay;
            steps.push(RuntimeStep::StartCapture { headless: state.headless, overlay_live: show_status_overlay });
        },
        RuntimeRequest::Stop | RuntimeRequest::Shutdown => {
            if running {
                steps.push(RuntimeStep::StopCapture);
            }
            state.capture_running = false;
            steps.push(RuntimeStep::CloseWindow);
        },
        RuntimeRequest::ReplaySegments => {
            if running {
                steps.push(RuntimeStep::StartReplay { show_overlay: state.show_overlay });
            } else {
                steps.push(RuntimeStep::NotRunning);
            }
        },
        RuntimeRequest::ReturnLive => {
            if running {
                steps.push(RuntimeStep::ReturnToLive { show_overlay: state.show_overlay });
            } else {
                steps.push(RuntimeStep::NotRunning);
            }
        },
        RuntimeRequest::SignalLost => {
            if running {
                steps.push(RuntimeStep::NotifySignalLost { show_overlay: state.show_overlay });
            }
        },
        RuntimeRequest::SignalRestored => {
            if running {
                steps.push(RuntimeStep::NotifySignalRestored { show_overlay: state.show_overlay });
            }
        },
    }
    proof {
        assert(steps@ =~= runtime_steps(*old(state), req));
    }
    steps
}

/// Records that the capture pipeline of a `StartCapture` step is running.
pub fn capture_started(state: &mut RuntimeState)
    ensures
        *final(state) == (RuntimeState { capture_running: true, ..*old(state) }),
{
    state.capture_running = true;
}

/// Starting live never leaves two capture pipelines: a running one is always
/// stopped first, and a start is the last step.
pub proof fn law_start_live_replaces_capture(state: RuntimeState, overlay: bool)
    ensures
        ({
            let steps = runtime_steps(state, RuntimeRequest::StartLive { show_status_overlay: overlay });
            &&& steps.last() is StartCapture
            &&& state.capture_running ==> steps[0] == RuntimeStep::StopCapture
            &&& !runtime_after(state, RuntimeRequest::StartLive { show_status_overlay: overlay }, false).capture_running
        }),
{
}

} // verus!
