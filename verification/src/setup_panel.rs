//! Technician setup panel state: PIN or long-press unlock, and the camera, mode
//! and audience display chosen there. Times are wall-clock milliseconds.
use vstd::prelude::*;

use crate::buffer::{saturating_sub_i64, saturating_sub_spec};
use crate::capture_select::trunc_div;
use crate::config::OperatorConfig;
use crate::devices::CaptureDevice;
use crate::text::{decimal_i64, push_chars, push_str, signed_decimal, str_chars, string_from_chars};
use crate::types::{DisplayInfo, VideoFormat};

verus! {

/// How long the banner must be held to unlock setup.
pub const LONG_PRESS_MS: i64 = 3000;

/// What the technician selected in the setup panel.
#[derive(Debug, Clone)]
pub struct SetupSelection {
    pub device_id: String,
    pub width: u32,
    pub height: u32,
    pub fps: u32,
    pub pixel_format: String,
    pub display_id: u32,
}

/// State of the setup panel.
#[derive(Debug)]
pub struct SetupUiState {
    pub unlocked_until_ms: Option<i64>,
    pub pin_buffer: String,
    pub show_pin_dialog: bool,
    pub banner_press_start_ms: Option<i64>,
    pub devices: Vec<CaptureDevice>,
    pub formats: Vec<VideoFormat>,
    pub displays: Vec<DisplayInfo>,
    pub selected_device: usize,
    pub selected_format: usize,
    pub selected_display: usize,
}

/// Unlock deadline `secs` seconds after `now_ms`.
pub open spec fn unlock_deadline(secs: u64, now_ms: i64) -> int {
    now_ms + secs * 1000
}

/// Frames per second of the selected mode (30 when the denominator is not positive).
pub open spec fn selection_fps(f: VideoFormat) -> u32 {
    if f.fps_den > 0 {
        trunc_div(f.fps_num as int, f.fps_den as int) as u32
    } else {
        30
    }
}

impl SetupUiState {
    /// Locked, nothing listed, first entries selected.
    pub fn new() -> (r: Self)
        ensures
            r.unlocked_until_ms is None,
            r.pin_buffer@.len() == 0,
            !r.show_pin_dialog,
            r.banner_press_start_ms is None,
            r.devices@.len() == 0,
            r.formats@.len() == 0,
            r.displays@.len() == 0,
            r.selected_device == 0,
            r.selected_format == 0,
            r.selected_display == 0,
    {
        SetupUiState {
            unlocked_until_ms: None,
            pin_buffer: String::new(),
            show_pin_dialog: false,
            banner_press_start_ms: None,
            devices: Vec::new(),
            formats: Vec::new(),
            displays: Vec::new(),
            selected_device: 0,
            selected_format: 0,
            selected_display: 0,
        }
    }

    /// Setup is unlocked at `now_ms` while the unlock deadline lies ahead.
    pub open spec fn unlocked_at(&self, now_ms: i64) -> bool {
        match self.unlocked_until_ms {
            Some(t) => now_ms < t,
            None => false,
        }
    }

    pub fn is_unlocked(&self, now_ms: i64) -> (r: bool)
        ensures
            r == self.unlocked_at(now_ms),
    {
        match self.unlocked_until_ms {
            Some(t) => now_ms < t,
            None => false,
        }
    }

    /// Locks setup, closing the PIN dialog and forgetting the typed PIN.
    pub fn lock(&mut self)
        ensures
            final(self).unlocked_until_ms is None,
            !final(self).show_pin_dialog,
            final(self).pin_buffer@.len() == 0,
            final(self).banner_press_start_ms == old(self).banner_press_start_ms,
            final(self).devices == old(self).devices,
            final(self).formats == old(self).formats,
            final(self).displays == old(self).displays,
            final(self).selected_device == old(self).selected_device,
            final(self).selected_format == old(self).selected_format,
            final(self).selected_display == old(self).selected_display,
    {
        self.unlocked_until_ms = None;
        self.show_pin_dialog = false;
        self.pin_buffer = String::new();
    }

    /// Unlocks setup for `secs` seconds from `now_ms`, closing the PIN
    /// dialog and forgetting the typed PIN.
    pub fn unlock_for(&mut self, secs: u64, now_ms: i64)
        requires
            unlock_deadline(secs, now_ms) <= i64::MAX,
        ensures
            final(self).unlocked_until_ms == Some(unlock_deadline(secs, now_ms) as i64),
            !final(self).show_pin_dialog,
            final(self).pin_buffer@.len() == 0,
            final(self).banner_press_start_ms == old(self).banner_press_start_ms,
            final(self).devices == old(self).devices,
            final(self).formats == old(self).formats,
            final(self).displays == old(self).displays,
            final(self).selected_device == old(self).selected_device,
            final(self).selected_format == old(self).selected_format,
            final(self).selected_display == old(self).selected_display,
    {
        let until = ((now_ms as i128) + (secs as i128) * 1000) as i64;
        self.unlocked_until_ms = Some(until);
        self.show_pin_dialog = false;
        self.pin_buffer = String::new();
    }

    /// Replaces the device list; an out-of-range device selection falls back to the
    /// first device. The caller refreshes the modes of the selected device.
    pub fn refresh_devices(&mut self, devices: Vec<CaptureDevice>)
        ensures
            final(self).devices == devices,
            final(self).selected_device == (if old(self).selected_device >= devices@.len() {
                0
            } else {
                old(self).selected_device
            }),
            final(self).formats == old(self).formats,
            final(self).displays == old(self).displays,
            final(self).selected_format == old(self).selected_format,
            final(self).selected_display == old(self).selected_display,
            final(self).unlocked_until_ms == old(self).unlocked_until_ms,
            final(self).show_pin_dialog == old(self).show_pin_dialog,
            final(self).pin_buffer == old(self).pin_buffer,
            final(self).banner_press_start_ms == old(self).banner_press_start_ms,
    {
        self.devices = devices;
        if self.selected_device >= self.devices.len() {
            self.selected_device = 0;
        }
    }

    /// Id of the selected device, whose modes the caller probes.
    pub fn selected_device_id(&self) -> (r: Option<String>)
        ensures
            match r {
                Some(id) => self.selected_device < self.devices@.len() && id == self.devices@[self.selected_device as int].id,
                None => self.selected_device >= self.devices@.len(),
            },
    {
        if self.selected_device < self.devices.len() {
            Some(self.devices[self.selected_device].id.clone())
        } else {
            None
        }
    }

    /// Takes the probed modes of the selected device (none when no device is
    /// selected); an out-of-range mode selection falls back to the first mode.
    pub fn refresh_formats(&mut self, probed: Vec<VideoFormat>)
        ensures
            old(self).selected_device < old(self).devices@.len() ==> final(self).formats == probed,
            old(self).selected_device >= old(self).devices@.len() ==> final(self).formats@.len() == 0,
            final(self).selected_format == (if old(self).selected_format >= final(self).formats@.len() {
                0
            } else {
                old(self).selected_format
            }),
            final(self).devices == old(self).devices,
            final(self).displays == old(self).displays,
            final(self).selected_device == old(self).selected_device,
            final(self).selected_display == old(self).selected_display,
            final(self).unlocked_until_ms == old(self).unlocked_until_ms,
            final(self).show_pin_dialog == old(self).show_pin_dialog,
            final(self).pin_buffer == old(self).pin_buffer,
            final(self).banner_press_start_ms == old(self).banner_press_start_ms,
    {
        if self.selected_device < self.devices.len() {
            self.formats = probed;
        } else {
            self.formats = Vec::new();
        }
        if self.selected_format >= self.formats.len() {
            self.selected_format = 0;
        }
    }

    /// Replaces the display list; an out-of-range display selection falls back to
    /// the first display.
    pub fn set_displays(&mut self, displays: Vec<DisplayInfo>)
        ensures
            final(self).displays == displays,
            final(self).selected_display == (if old(self).selected_display >= displays@.len() {
                0
            } else {
                old(self).selected_display
            }),
            final(self).devices == old(self).devices,
            final(self).formats == old(self).formats,
            final(self).selected_device == old(self).selected_device,
            final(self).selected_format == old(self).selected_format,
            final(self).unlocked_until_ms == old(self).unlocked_until_ms,
            final(self).show_pin_dialog == old(self).show_pin_dialog,
            final(self).pin_buffer == old(self).pin_buffer,
            final(self).banner_press_start_ms == old(self).banner_press_start_ms,
    {
        self.displays = displays;
        if self.selected_display >= self.displays.len() {
            self.selected_display = 0;
        }
    }

    /// The selection to apply: the selected device and mode (display 0 when no
    /// display is selected); none without a selected device and mode.
    pub fn selection(&self) -> (r: Option<SetupSelection>)
        ensures
            (self.selected_device < self.devices@.len() && self.selected_format < self.formats@.len())
                <==> r is Some,
            r matches Some(sel) ==> {
                let dev = self.devices@[self.selected_device as int];
                let f = self.formats@[self.selected_format as int];
                &&& sel.device_id == dev.id
                &&& sel.width == f.width as u32
                &&& sel.height == f.height as u32
                &&& sel.fps == selection_fps(f)
                &&& sel.pixel_format == f.pixel_format
                &&& sel.display_id == (if self.selected_display < self.displays@.len() {
                    self.displays@[self.selected_display as int].id
                } else {
                    0
                })
            },
    {
        if self.selected_device >= self.devices.len() || self.selected_format >= self.formats.len() {
            return None;
        }
        let dev = &self.devices[self.selected_device];
        let fmt = &self.formats[self.selected_format];
        let display_id = if self.selected_display < self.displays.len() {
            self.displays[self.selected_display].id
        } else {
            0
        };
        let fps: u32 = if fmt.fps_den > 0 {
            let den = if fmt.fps_den > 1 {
                fmt.fps_den
            } else {
                1
            };
            (fmt.fps_num / den) as u32
        } else {
            30
        };
        Some(
            SetupSelection {
                device_id: dev.id.clone(),
                width: fmt.width as u32,
                height: fmt.height as u32,
                fps,
                pixel_format: fmt.pixel_format.clone(),
                display_id,
            },
        )
    }
}

/// Frames per second shown in a mode label (0 when the denominator is not positive).
pub open spec fn label_fps(f: VideoFormat) -> int {
    if f.fps_den > 0 {
        trunc_div(f.fps_num as int, f.fps_den as int)
    } else {
        0
    }
}

/// `W×H @ PF N fps`.
pub open spec fn format_label_spec(f: VideoFormat) -> Seq<char> {
    signed_decimal(f.width as int) + "×"@ + signed_decimal(f.height as int) + " @ "@ + f.pixel_format@
        + " "@ + signed_decimal(label_fps(f)) + " fps"@
}

/// The label of a mode in the setup panel.
pub fn format_label(f: &VideoFormat) -> (r: String)
    ensures
        r@ == format_label_spec(*f),
{
    let fps: i32 = if f.fps_den > 0 {
        let den = if f.fps_den > 1 {
            f.fps_den
        } else {
            1
        };
        f.fps_num / den
    } else {
        0
    };
    let mut v = decimal_i64(f.width as i64);
    push_str(&mut v, "×");
    push_chars(&mut v, &decimal_i64(f.height as i64));
    push_str(&mut v, " @ ");
    push_str(&mut v, f.pixel_format.as_str());
    push_str(&mut v, " ");
    push_chars(&mut v, &decimal_i64(fps as i64));
    push_str(&mut v, " fps");
    string_from_chars(&v)
}

/// What holding the banner does at `now_ms`: nothing while unlocked; a press
/// starts timing; a press held 3 s unlocks setup. Returns whether setup was just
/// unlocked (the caller then refreshes the device list).
pub fn handle_banner_press(setup: &mut SetupUiState, op_cfg: &OperatorConfig, pressed: bool, now_ms: i64) -> (unlocked: bool)
    requires
        unlock_deadline(op_cfg.setup_unlock_seconds, now_ms) <= i64::MAX,
    ensures
        old(setup).unlocked_at(now_ms) ==> !unlocked && *final(setup) == *old(setup),
        !old(setup).unlocked_at(now_ms) ==> {
            &&& !pressed ==> !unlocked && final(setup).banner_press_start_ms is None
                && final(setup).unlocked_until_ms == old(setup).unlocked_until_ms
                && final(setup).show_pin_dialog == old(setup).show_pin_dialog
                && final(setup).pin_buffer == old(setup).pin_buffer
            &&& pressed && old(setup).banner_press_start_ms is None ==> !unlocked
                && final(setup).banner_press_start_ms == Some(now_ms)
                && final(setup).unlocked_until_ms == old(setup).unlocked_until_ms
                && final(setup).show_pin_dialog == old(setup).show_pin_dialog
                && final(setup).pin_buffer == old(setup).pin_buffer
            &&& pressed && old(setup).banner_press_start_ms is Some ==> {
                let start = old(setup).banner_press_start_ms->0;
                if saturating_sub_spec(now_ms, start) >= LONG_PRESS_MS {
                    &&& unlocked
                    &&& final(setup).unlocked_until_ms == Some(
                        unlock_deadline(op_cfg.setup_unlock_seconds, now_ms) as i64,
                    )
                    &&& final(setup).banner_press_start_ms is None
                    &&& !final(setup).show_pin_dialog
                    &&& final(setup).pin_buffer@.len() == 0
                } else {
                    !unlocked && final(setup).banner_press_start_ms == old(setup).banner_press_start_ms
                        && final(setup).unlocked_until_ms == old(setup).unlocked_until_ms
                        && final(setup).show_pin_dialog == old(setup).show_pin_dialog
                        && final(setup).pin_buffer == old(setup).pin_buffer
                }
            }
        },
        final(setup).devices == old(setup).devices,
        final(setup).formats == old(setup).formats,
        final(setup).displays == old(setup).displays,
        final(setup).selected_device == old(setup).selected_device,
        final(setup).selected_format == old(setup).selected_format,
        final(setup).selected_display == old(setup).selected_display,
{
    if setup.is_unlocked(now_ms) {
        return false;
    }
    if pressed {
        match setup.banner_press_start_ms {
            None => {
                setup.banner_press_start_ms = Some(now_ms);
                false
            },
            Some(start) => {
                if saturating_sub_i64(now_ms, start) >= LONG_PRESS_MS {
                    setup.unlock_for(op_cfg.setup_unlock_seconds, now_ms);
                    setup.banner_press_start_ms = None;
                    true
                } else {
                    false
                }
            },
        }
    } else {
        setup.banner_press_start_ms = None;
        false
    }
}

/// "Unlock setup" pressed: without a configured PIN setup unlocks at once (returns
/// true, the caller refreshes the device list); otherwise the PIN dialog opens.
pub fn request_unlock(setup: &mut SetupUiState, op_cfg: &OperatorConfig, now_ms: i64) -> (unlocked: bool)
    requires
        unlock_deadline(op_cfg.setup_unlock_seconds, now_ms) <= i64::MAX,
    ensures
        unlocked == (op_cfg.setup_pin@.len() == 0),
        unlocked ==> final(setup).unlocked_until_ms == Some(
            unlock_deadline(op_cfg.setup_unlock_seconds, now_ms) as i64,
        ),
        !unlocked ==> final(setup).show_pin_dialog && final(setup).unlocked_until_ms == old(
            setup,
        ).unlocked_until_ms,
{
    if op_cfg.setup_pin.as_str().is_empty() {
        setup.unlock_for(op_cfg.setup_unlock_seconds, now_ms);
        true
    } else {
        setup.show_pin_dialog = true;
        false
    }
}

/// "OK" in the PIN dialog: with a configured PIN that equals the typed one, setup
/// unlocks (returns true, the caller refreshes the device list); otherwise nothing
/// changes.
pub fn submit_pin(setup: &mut SetupUiState, op_cfg: &OperatorConfig, now_ms: i64) -> (unlocked: bool)
    requires
        unlock_deadline(op_cfg.setup_unlock_seconds, now_ms) <= i64::MAX,
    ensures
        unlocked == (op_cfg.setup_pin@.len() > 0 && old(setup).pin_buffer@ == op_cfg.setup_pin@),
        unlocked ==> final(setup).unlocked_until_ms == Some(
            unlock_deadline(op_cfg.setup_unlock_seconds, now_ms) as i64,
        ) && !final(setup).show_pin_dialog && final(setup).pin_buffer@.len() == 0,
        !unlocked ==> *final(setup) == *old(setup),
{
    if !op_cfg.setup_pin.as_str().is_empty() && setup.pin_buffer == op_cfg.setup_pin {
        setup.unlock_for(op_cfg.setup_unlock_seconds, now_ms);
        true
    } else {
        false
    }
}

/// "Cancel" in the PIN dialog: the dialog closes and the typed PIN is forgotten.
pub fn cancel_pin_dialog(setup: &mut SetupUiState)
    ensures
        !final(setup).show_pin_dialog,
        final(setup).pin_buffer@.len() == 0,
        final(setup).unlocked_until_ms == old(setup).unlocked_until_ms,
        final(setup).banner_press_start_ms == old(setup).banner_press_start_ms,
{
    setup.show_pin_dialog = false;
    setup.pin_buffer = String::new();
}

} // verus!
