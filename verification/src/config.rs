//! Appliance configuration sections and their defaults.
use vstd::prelude::*;

use crate::text::{
    chars_eq_ignore_ascii_case, eq_ignore_ascii_case, find_char, index_of, parse_u32_chars,
    join_path, join_path_spec, parse_u32_spec, slice_chars, str_chars, trim, trim_chars,
};

verus! {

/// Operator touch display.
#[derive(Debug)]
pub struct OperatorConfig {
    pub enabled: bool,
    pub display_id: u32,
    pub width: u32,
    pub height: u32,
    pub fullscreen: bool,
    /// Empty = PIN disabled; long-press on banner still unlocks setup.
    pub setup_pin: String,
    /// Seconds setup stays unlocked after PIN or long-press.
    pub setup_unlock_seconds: u64,
}

/// Capture input selection.
#[derive(Debug)]
pub struct InputConfig {
    pub device_id: String,
    pub resolution: String,
    pub fps: u32,
    pub pixel_format: String,
}

/// Audience program output.
#[derive(Debug)]
pub struct OutputConfig {
    pub display_id: u32,
    pub fullscreen: bool,
    pub show_status_overlay: bool,
    /// When true and multiple monitors exist, audience HDMI is non-operator display.
    pub auto_display: bool,
}

/// Rolling buffer storage.
#[derive(Debug)]
pub struct StorageConfig {
    pub buffer_path: String,
    pub auto_clean_on_start: bool,
}

/// Keyboard hotkey bindings.
#[derive(Debug)]
pub struct HotkeyConfig {
    pub mark: String,
    pub replay: String,
    pub replay_last: String,
    pub return_live: String,
    pub clear_mark: String,
}

/// Appliance boot behaviour.
#[derive(Debug)]
pub struct ApplianceConfig {
    pub enabled: bool,
    pub autostart_live: bool,
}

impl Default for OperatorConfig {
    fn default() -> (r: Self)
        ensures
            r.enabled,
            r.display_id == 0,
            r.width == 800,
            r.height == 480,
            !r.fullscreen,
            r.setup_pin@ == "0000"@,
            r.setup_unlock_seconds == 600,
    {
        OperatorConfig {
            enabled: true,
            display_id: 0,
            width: 800,
            height: 480,
            fullscreen: false,
            setup_pin: String::from_str("0000"),
            setup_unlock_seconds: 600,
        }
    }
}

impl Default for InputConfig {
    fn default() -> (r: Self)
        ensures
            r.device_id@ == "auto"@,
            r.resolution@ == "auto"@,
            r.fps == 0,
            r.pixel_format@ == "auto"@,
    {
        InputConfig {
            device_id: String::from_str("auto"),
            resolution: String::from_str("auto"),
            fps: 0,
            pixel_format: String::from_str("auto"),
        }
    }
}

impl Default for OutputConfig {
    fn default() -> (r: Self)
        ensures
            r.display_id == 0,
            r.fullscreen,
            !r.show_status_overlay,
            r.auto_display,
    {
        OutputConfig { display_id: 0, fullscreen: true, show_status_overlay: false, auto_display: true }
    }
}

impl Default for StorageConfig {
    fn default() -> (r: Self)
        ensures
            r.buffer_path@ == default_buffer_path_text(),
            r.auto_clean_on_start,
    {
        StorageConfig { buffer_path: default_buffer_path(), auto_clean_on_start: true }
    }
}

impl Default for HotkeyConfig {
    fn default() -> (r: Self)
        ensures
            r.mark@ == "M"@,
            r.replay@ == "R"@,
            r.replay_last@ == "Space"@,
            r.return_live@ == "L"@,
            r.clear_mark@ == "C"@,
    {
        HotkeyConfig {
            mark: String::from_str("M"),
            replay: String::from_str("R"),
            replay_last: String::from_str("Space"),
            return_live: String::from_str("L"),
            clear_mark: String::from_str("C"),
        }
    }
}

impl Default for ApplianceConfig {
    fn default() -> (r: Self)
        ensures
            r.enabled,
            r.autostart_live,
    {
        ApplianceConfig { enabled: true, autostart_live: true }
    }
}

/// Default rolling buffer directory on the appliance.
pub open spec fn default_buffer_path_text() -> Seq<char> {
    "/var/lib/instant-replay/buffer"@
}

/// Appliance configuration directory.
pub open spec fn config_dir_text() -> Seq<char> {
    "/etc/instant-replay"@
}

pub fn default_buffer_path() -> (r: String)
    ensures
        r@ == default_buffer_path_text(),
{
    String::from_str("/var/lib/instant-replay/buffer")
}

/// Pi appliance: `/etc/instant-replay/config.toml`, then legacy JSON in config dir.
pub fn config_dir() -> (r: String)
    ensures
        r@ == config_dir_text(),
{
    String::from_str("/etc/instant-replay")
}

/// A `WxH` pair: exactly one `x`, with a `u32` on each side.
pub open spec fn resolution_pair_spec(s: Seq<char>) -> Option<(u32, u32)> {
    match index_of(s, 'x') {
        Some(k) => {
            let rest = s.subrange(k + 1, s.len() as int);
            if index_of(rest, 'x') is Some {
                None
            } else {
                match (parse_u32_spec(s.subrange(0, k)), parse_u32_spec(rest)) {
                    (Some(w), Some(h)) => Some((w, h)),
                    _ => None,
                }
            }
        },
        None => None,
    }
}

/// Splits a `WxH` text at `x` and parses both sides.
pub fn parse_resolution_pair_chars(v: &Vec<char>) -> (r: Option<(u32, u32)>)
    ensures
        r == resolution_pair_spec(v@),
{
    match find_char(v, 'x') {
        Some(k) => {
            let rest = slice_chars(v, k + 1, v.len());
            if find_char(&rest, 'x').is_some() {
                return None;
            }
            let left = slice_chars(v, 0, k);
            match (parse_u32_chars(&left), parse_u32_chars(&rest)) {
                (Some(w), Some(h)) => Some((w, h)),
                _ => None,
            }
        },
        None => None,
    }
}

/// The configured capture resolution: `None` when empty or `auto`, else a `WxH` pair.
pub open spec fn configured_resolution_spec(s: Seq<char>) -> Option<(u32, u32)> {
    let r = trim(s);
    if r.len() == 0 || eq_ignore_ascii_case(r, "auto"@) {
        None
    } else {
        resolution_pair_spec(r)
    }
}

/// Parses a configured resolution text (`auto` or empty means none).
fn parse_configured_resolution(resolution: &str) -> (r: Option<(u32, u32)>)
    ensures
        r == configured_resolution_spec(resolution@),
{
    let v = str_chars(resolution);
    let t = trim_chars(&v);
    if t.len() == 0 || chars_eq_ignore_ascii_case(&t, "auto") {
        return None;
    }
    parse_resolution_pair_chars(&t)
}

/// Replay timing and mode. The playback speed is a float and is kept by the
/// application beside these settings.
#[derive(Debug)]
pub struct ReplaySettings {
    pub buffer_seconds: u32,
    pub default_replay_seconds: u32,
    pub chunk_seconds: u32,
    pub mode: String,
}

impl Default for ReplaySettings {
    fn default() -> (r: Self)
        ensures
            r.buffer_seconds == 20,
            r.default_replay_seconds == 10,
            r.chunk_seconds == 1,
            r.mode@ == "marked"@,
    {
        ReplaySettings {
            buffer_seconds: 20,
            default_replay_seconds: 10,
            chunk_seconds: 1,
            mode: String::from_str("marked"),
        }
    }
}

/// The whole appliance configuration.
#[derive(Debug)]
pub struct AppConfig {
    pub input: InputConfig,
    pub output: OutputConfig,
    pub replay: ReplaySettings,
    pub storage: StorageConfig,
    pub hotkeys: HotkeyConfig,
    pub appliance: ApplianceConfig,
    pub operator: OperatorConfig,
}

impl Default for AppConfig {
    fn default() -> (r: Self)
        ensures
            r.input.device_id@ == "auto"@,
            r.input.resolution@ == "auto"@,
            r.input.fps == 0,
            r.input.pixel_format@ == "auto"@,
            r.output.display_id == 0,
            r.output.fullscreen,
            !r.output.show_status_overlay,
            r.output.auto_display,
            r.replay.buffer_seconds == 20,
            r.replay.default_replay_seconds == 10,
            r.replay.chunk_seconds == 1,
            r.replay.mode@ == "marked"@,
            r.storage.buffer_path@ == default_buffer_path_text(),
            r.storage.auto_clean_on_start,
            r.hotkeys.mark@ == "M"@,
            r.hotkeys.replay@ == "R"@,
            r.hotkeys.replay_last@ == "Space"@,
            r.hotkeys.return_live@ == "L"@,
            r.hotkeys.clear_mark@ == "C"@,
            r.appliance.enabled,
            r.appliance.autostart_live,
            r.operator.enabled,
            r.operator.display_id == 0,
            r.operator.width == 800,
            r.operator.height == 480,
            !r.operator.fullscreen,
            r.operator.setup_pin@ == "0000"@,
            r.operator.setup_unlock_seconds == 600,
    {
        AppConfig {
            input: InputConfig::default(),
            output: OutputConfig::default(),
            replay: ReplaySettings::default(),
            storage: StorageConfig::default(),
            hotkeys: HotkeyConfig::default(),
            appliance: ApplianceConfig::default(),
            operator: OperatorConfig::default(),
        }
    }
}

/// Home directory used when `HOME` is not set.
pub open spec fn fallback_home_text() -> Seq<char> {
    "/home/pi"@
}

impl AppConfig {
    /// `/etc/instant-replay/config.toml`.
    pub fn config_path_toml() -> (r: String)
        ensures
            r@ == join_path_spec(config_dir_text(), "config.toml"@),
    {
        let dir = config_dir();
        join_path(dir.as_str(), "config.toml")
    }

    /// The legacy JSON configuration under the home directory (`home` is the value
    /// of `HOME`, if set).
    pub fn config_path_json_legacy(home: Option<&str>) -> (r: String)
        ensures
            r@ == join_path_spec(
                match home {
                    Some(h) => h@,
                    None => fallback_home_text(),
                },
                ".config/instant-replay/config.json"@,
            ),
    {
        match home {
            Some(h) => join_path(h, ".config/instant-replay/config.json"),
            None => join_path("/home/pi", ".config/instant-replay/config.json"),
        }
    }

    /// The configured capture resolution: `None` when empty or `auto`, else a
    /// `WxH` pair.
    pub fn parse_resolution(&self) -> (r: Option<(u32, u32)>)
        ensures
            r == configured_resolution_spec(self.input.resolution@),
    {
        parse_configured_resolution(self.input.resolution.as_str())
    }
}

impl Clone for OperatorConfig {
    fn clone(&self) -> (r: Self)
        ensures
            r == *self,
    {
        OperatorConfig {
            enabled: self.enabled,
            display_id: self.display_id,
            width: self.width,
            height: self.height,
            fullscreen: self.fullscreen,
            setup_pin: self.setup_pin.clone(),
            setup_unlock_seconds: self.setup_unlock_seconds,
        }
    }
}

impl Clone for InputConfig {
    fn clone(&self) -> (r: Self)
        ensures
            r == *self,
    {
        InputConfig {
            device_id: self.device_id.clone(),
            resolution: self.resolution.clone(),
            fps: self.fps,
            pixel_format: self.pixel_format.clone(),
        }
    }
}

impl Clone for OutputConfig {
    fn clone(&self) -> (r: Self)
        ensures
            r == *self,
    {
        OutputConfig {
            display_id: self.display_id,
            fullscreen: self.fullscreen,
            show_status_overlay: self.show_status_overlay,
            auto_display: self.auto_display,
        }
    }
}

impl Clone for StorageConfig {
    fn clone(&self) -> (r: Self)
        ensures
            r == *self,
    {
        StorageConfig {
            buffer_path: self.buffer_path.clone(),
            auto_clean_on_start: self.auto_clean_on_start,
        }
    }
}

impl Clone for HotkeyConfig {
    fn clone(&self) -> (r: Self)
        ensures
            r == *self,
    {
        HotkeyConfig {
            mark: self.mark.clone(),
            replay: self.replay.clone(),
            replay_last: self.replay_last.clone(),
            return_live: self.return_live.clone(),
            clear_mark: self.clear_mark.clone(),
        }
    }
}

impl Clone for ApplianceConfig {
    fn clone(&self) -> (r: Self)
        ensures
            r == *self,
    {
        ApplianceConfig {
            enabled: self.enabled,
            autostart_live: self.autostart_live,
        }
    }
}

impl Clone for ReplaySettings {
    fn clone(&self) -> (r: Self)
        ensures
            r == *self,
    {
        ReplaySettings {
            buffer_seconds: self.buffer_seconds,
            default_replay_seconds: self.default_replay_seconds,
            chunk_seconds: self.chunk_seconds,
            mode: self.mode.clone(),
        }
    }
}

impl Clone for AppConfig {
    fn clone(&self) -> (r: Self)
        ensures
            r == *self,
    {
        AppConfig {
            input: self.input.clone(),
            output: self.output.clone(),
            replay: self.replay.clone(),
            storage: self.storage.clone(),
            hotkeys: self.hotkeys.clone(),
            appliance: self.appliance.clone(),
            operator: self.operator.clone(),
        }
    }
}

} // verus!
