//! Start-up decisions of the engine process: test-mode overrides, headless
//! detection, which program output to run, whether to start live on boot, the
//! loopback HTTP settings, the log directory, the single-instance lock, and how
//! operator commands are applied.
use vstd::prelude::*;

use crate::capture_control::{resolution_text, resolution_text_spec};
use crate::config::{config_dir, config_dir_text, AppConfig};
use crate::setup_panel::SetupSelection;
use crate::text::{
    chars_eq_ignore_ascii_case, chars_eq_str, eq_ignore_ascii_case, join_path, join_path_spec,
    parse_u32_spec, parse_u32_str, str_chars, trim, trim_chars,
};

verus! {

/// Buffer directory used by `--test`.
pub open spec fn test_buffer_path() -> Seq<char> {
    "/tmp/instant-replay/buffer"@
}

/// `--test` switches to the test pattern, a scratch buffer and no autostart.
pub fn apply_test_mode(config: &mut AppConfig, test: bool)
    ensures
        !test ==> *final(config) == *old(config),
        test ==> final(config).input.device_id@ == "test"@ && final(config).storage.buffer_path@
            == test_buffer_path() && !final(config).appliance.autostart_live
            && final(config).appliance.enabled == old(config).appliance.enabled
            && final(config).input.resolution == old(config).input.resolution
            && final(config).input.fps == old(config).input.fps
            && final(config).input.pixel_format == old(config).input.pixel_format
            && final(config).storage.auto_clean_on_start == old(config).storage.auto_clean_on_start
            && final(config).output == old(config).output && final(config).replay
            == old(config).replay && final(config).hotkeys == old(config).hotkeys
            && final(config).operator == old(config).operator,
{
    if test {
        config.input.device_id = String::from_str("test");
        config.storage.buffer_path = String::from_str("/tmp/instant-replay/buffer");
        config.appliance.autostart_live = false;
    }
}

/// Without a display session (or in test mode) the program output runs headless.
/// `display` is the value of `DISPLAY` (checked on Linux only).
pub open spec fn headless_spec(test_mode: bool, linux: bool, display: Option<Seq<char>>) -> bool {
    if test_mode {
        true
    } else if linux {
        match display {
            Some(d) => trim(d).len() == 0,
            None => true,
        }
    } else {
        false
    }
}

/// The text behind an optional string slice.
pub open spec fn opt_str(s: Option<&str>) -> Option<Seq<char>> {
    match s {
        Some(t) => Some(t@),
        None => None,
    }
}

pub fn should_use_headless(test_mode: bool, linux: bool, display: Option<&str>) -> (r: bool)
    ensures
        r == headless_spec(test_mode, linux, opt_str(display)),
{
    if test_mode {
        return true;
    }
    if !linux {
        return false;
    }
    match display {
        Some(d) => {
            let v = str_chars(d);
            let t = trim_chars(&v);
            t.len() == 0
        },
        None => true,
    }
}

/// Which program output to run.
#[derive(Debug, Clone, Copy, PartialEq, Eq, Structural)]
pub enum ProgramOutputMode {
    /// No window at all.
    Headless,
    /// The operator touch window plus the audience window.
    OperatorUi,
    /// Only the audience window.
    ProgramOnly,
}

pub fn program_output_mode(headless: bool, no_ui: bool, operator_enabled: bool) -> (r: ProgramOutputMode)
    ensures
        r == (if headless || no_ui {
            ProgramOutputMode::Headless
        } else if operator_enabled {
            ProgramOutputMode::OperatorUi
        } else {
            ProgramOutputMode::ProgramOnly
        }),
{
    if headless || no_ui {
        ProgramOutputMode::Headless
    } else if operator_enabled {
        ProgramOutputMode::OperatorUi
    } else {
        ProgramOutputMode::ProgramOnly
    }
}

/// What the process does about live capture on boot.
#[derive(Debug, Clone, Copy, PartialEq, Eq, Structural)]
pub enum AutostartPlan {
    /// Autostart is off.
    Off,
    /// Autostart is wanted but there is no display: skip it (with a warning).
    SkipNoDisplay,
    /// Start live from the configuration.
    FromConfig,
    /// Start the test pattern at 1280x720, 30 fps.
    TestPattern,
}

/// The boot plan: autostart when asked for (by `--appliance` or the appliance
/// setting) and allowed by `autostart_live`; skipped without a display.
pub open spec fn autostart_spec(
    appliance_flag: bool,
    appliance_enabled: bool,
    autostart_live: bool,
    headless: bool,
    test: bool,
) -> AutostartPlan {
    let autostart = (appliance_flag || appliance_enabled) && autostart_live;
    if autostart && headless {
        AutostartPlan::SkipNoDisplay
    } else if autostart && !test {
        AutostartPlan::FromConfig
    } else if autostart && test {
        AutostartPlan::TestPattern
    } else {
        AutostartPlan::Off
    }
}

pub fn autostart_plan(appliance_flag: bool, config: &AppConfig, headless: bool, test: bool) -> (r: AutostartPlan)
    ensures
        r == autostart_spec(
            appliance_flag,
            config.appliance.enabled,
            config.appliance.autostart_live,
            headless,
            test,
        ),
{
    let autostart = (appliance_flag || config.appliance.enabled) && config.appliance.autostart_live;
    if autostart && headless {
        AutostartPlan::SkipNoDisplay
    } else if autostart && !test {
        AutostartPlan::FromConfig
    } else if autostart && test {
        AutostartPlan::TestPattern
    } else {
        AutostartPlan::Off
    }
}

/// The operator window is shown when enabled, allowed, and a display exists.
pub fn show_operator_ui(operator_enabled: bool, no_ui: bool, headless: bool) -> (r: bool)
    ensures
        r == (operator_enabled && !no_ui && !headless),
{
    operator_enabled && !no_ui && !headless
}

/// Default port of the loopback HTTP API.
pub const DEFAULT_HTTP_PORT: u16 = 8080;

/// The HTTP port: `INSTANT_REPLAY_HTTP_PORT` when it is a valid port number, else 8080.
pub open spec fn http_port_spec(value: Option<Seq<char>>) -> u16 {
    match value {
        Some(v) => match parse_u32_spec(v) {
            Some(n) => if n <= 65535 {
                n as u16
            } else {
                DEFAULT_HTTP_PORT
            },
            None => DEFAULT_HTTP_PORT,
        },
        None => DEFAULT_HTTP_PORT,
    }
}

pub fn http_port_from_env(value: Option<&str>) -> (r: u16)
    ensures
        r == http_port_spec(opt_str(value)),
{
    match value {
        Some(v) => match parse_u32_str(v) {
            Some(n) => if n <= 65535 {
                n as u16
            } else {
                DEFAULT_HTTP_PORT
            },
            None => DEFAULT_HTTP_PORT,
        },
        None => DEFAULT_HTTP_PORT,
    }
}

/// The HTTP API runs when asked for explicitly, in test mode or in appliance mode,
/// unless `INSTANT_REPLAY_HTTP` is `0` or `false` (any case).
pub open spec fn http_enabled_spec(test: bool, appliance: bool, explicit: bool, env: Option<Seq<char>>) -> bool {
    let disabled = match env {
        Some(v) => v == "0"@ || eq_ignore_ascii_case(v, "false"@),
        None => false,
    };
    !disabled && (explicit || test || appliance)
}

pub fn http_enabled_by_default(test: bool, appliance: bool, explicit: bool, env: Option<&str>) -> (r: bool)
    ensures
        r == http_enabled_spec(test, appliance, explicit, opt_str(env)),
{
    let disabled = match env {
        Some(v) => {
            let c = str_chars(v);
            chars_eq_str(&c, "0") || chars_eq_ignore_ascii_case(&c, "false")
        },
        None => false,
    };
    !disabled && (explicit || test || appliance)
}

/// The log directories to try, in order: `INSTANT_REPLAY_LOG_DIR` alone when set;
/// else the configuration directory's `logs`, the user's (home from `HOME`, else
/// `/tmp`) `.config/instant-replay/logs`, then `/tmp/instant-replay/logs`, which
/// is used when none can be created.
pub open spec fn log_dir_candidates_spec(env_dir: Option<Seq<char>>, home: Option<Seq<char>>) -> Seq<Seq<char>> {
    match env_dir {
        Some(d) => seq![d],
        None => seq![
            join_path_spec(config_dir_text(), "logs"@),
            join_path_spec(
                match home {
                    Some(h) => h,
                    None => "/tmp"@,
                },
                ".config/instant-replay/logs"@,
            ),
            "/tmp/instant-replay/logs"@,
        ],
    }
}

pub fn log_dir_candidates(env_dir: Option<&str>, home: Option<&str>) -> (r: Vec<String>)
    ensures
        r@.len() == log_dir_candidates_spec(opt_str(env_dir), opt_str(home)).len(),
        forall|i: int| 0 <= i < r@.len() ==> (#[trigger] r@[i])@ == log_dir_candidates_spec(
            opt_str(env_dir),
            opt_str(home),
        )[i],
{
    match env_dir {
        Some(d) => vec![String::from_str(d)],
        None => {
            let dir = config_dir();
            let etc = join_path(dir.as_str(), "logs");
            let user = match home {
                Some(h) => join_path(h, ".config/instant-replay/logs"),
                None => join_path("/tmp", ".config/instant-replay/logs"),
            };
            let tmp = String::from_str("/tmp/instant-replay/logs");
            vec![etc, user, tmp]
        },
    }
}

/// Message of a start refused because another engine holds the lock.
pub open spec fn already_running_text() -> Seq<char> {
    "replay-engine already running (stop: sudo systemctl stop replay-engine)"@
}

/// Why the single-instance lock could not be taken.
#[derive(Debug, Clone, PartialEq, Eq)]
pub enum LockError {
    AlreadyRunning,
    /// An I/O failure, with its text.
    Io(String),
}

impl LockError {
    /// A failed lock attempt: the lock being held elsewhere means another engine
    /// runs; anything else is an I/O failure.
    pub fn from_lock_failure(would_block: bool, io_text: String) -> (r: Self)
        ensures
            would_block ==> r == LockError::AlreadyRunning,
            !would_block ==> r == LockError::Io(io_text),
    {
        if would_block {
            LockError::AlreadyRunning
        } else {
            LockError::Io(io_text)
        }
    }

    pub fn message(&self) -> (r: String)
        ensures
            match self {
                LockError::AlreadyRunning => r@ == already_running_text(),
                LockError::Io(e) => r@ == "engine lock: "@ + e@,
            },
    {
        match self {
            LockError::AlreadyRunning => String::from_str(
                "replay-engine already running (stop: sudo systemctl stop replay-engine)",
            ),
            LockError::Io(e) => {
                let mut v = str_chars("engine lock: ");
                let ev = str_chars(e.as_str());
                crate::text::push_chars(&mut v, &ev);
                crate::text::string_from_chars(&v)
            },
        }
    }
}

/// Path of the single-instance lock file.
pub fn lock_path() -> (r: String)
    ensures
        r@ == "/run/instant-replay/replay-engine.lock"@,
{
    String::from_str("/run/instant-replay/replay-engine.lock")
}

/// Commands from the operator window.
#[derive(Debug, Clone, Copy, PartialEq, Eq, Structural)]
pub enum OperatorCmd {
    Mark,
    Replay,
    ReplayLast,
    ReturnLive,
    ClearMark,
    ApplySetup,
    RefreshSetup,
    LockSetup,
}

/// Seconds replayed by the operator window's "last" button.
pub const OPERATOR_REPLAY_LAST_SECS: u32 = 10;

/// Setup commands confirm success with an `OK` toast; the others stay silent.
pub fn shows_ok_toast(cmd: OperatorCmd) -> (r: bool)
    ensures
        r == (cmd == OperatorCmd::ApplySetup || cmd == OperatorCmd::RefreshSetup),
{
    matches!(cmd, OperatorCmd::ApplySetup) || matches!(cmd, OperatorCmd::RefreshSetup)
}

/// The configuration after applying a setup selection: its device, mode, pixel
/// format and audience display.
pub fn apply_setup_selection(config: &AppConfig, sel: &SetupSelection) -> (r: AppConfig)
    ensures
        r.input.device_id == sel.device_id,
        r.input.resolution@ == resolution_text_spec(sel.width, sel.height),
        r.input.fps == sel.fps,
        r.input.pixel_format == sel.pixel_format,
        r.output.display_id == sel.display_id,
        r.output.fullscreen == config.output.fullscreen,
        r.output.show_status_overlay == config.output.show_status_overlay,
        r.output.auto_display == config.output.auto_display,
        r.replay == config.replay,
        r.storage == config.storage,
        r.hotkeys == config.hotkeys,
        r.appliance == config.appliance,
        r.operator == config.operator,
{
    let mut cfg = config.clone();
    cfg.input.device_id = sel.device_id.clone();
    cfg.input.resolution = resolution_text(sel.width, sel.height);
    cfg.input.fps = sel.fps;
    cfg.input.pixel_format = sel.pixel_format.clone();
    cfg.output.display_id = sel.display_id;
    cfg
}

/// The configuration live capture is started with from a start request: its
/// device, mode, pixel format, display and fullscreen flag replace the current
/// ones.
pub fn start_live_config(
    config: &AppConfig,
    device_id: String,
    width: u32,
    height: u32,
    fps: u32,
    pixel_format: String,
    display_id: u32,
    fullscreen: bool,
) -> (r: AppConfig)
    ensures
        r.input.device_id == device_id,
        r.input.resolution@ == resolution_text_spec(width, height),
        r.input.fps == fps,
        r.input.pixel_format == pixel_format,
        r.output.display_id == display_id,
        r.output.fullscreen == fullscreen,
        r.output.show_status_overlay == config.output.show_status_overlay,
        r.output.auto_display == config.output.auto_display,
        r.replay == config.replay,
        r.storage == config.storage,
        r.hotkeys == config.hotkeys,
        r.appliance == config.appliance,
        r.operator == config.operator,
{
    let mut cfg = config.clone();
    cfg.input.device_id = device_id;
    cfg.input.resolution = resolution_text(width, height);
    cfg.input.fps = fps;
    cfg.input.pixel_format = pixel_format;
    cfg.output.display_id = display_id;
    cfg.output.fullscreen = fullscreen;
    cfg
}

} // verus!
