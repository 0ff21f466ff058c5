//! Capture device identifiers and operator-facing error text.
use vstd::prelude::*;

use crate::text::{
    chars_contain_str, chars_eq_str, chars_start_with_str, first_line, first_line_chars,
    push_str, seq_contains, seq_starts_with, slice_chars, str_chars, string_from_chars,
    to_lowercase_chars, trim, trim_chars, unicode_lowercase,
};
use crate::format_probe::{
    fallback_modes, modes_view, ordered_modes, probe_formats, probed_modes, v4l2_path_spec,
    CapsStructure,
};
use crate::types::{VideoDevice, VideoFormat};

verus! {

/// A capture device known to the engine.
#[derive(Debug)]
pub struct CaptureDevice {
    pub id: String,
    pub display_name: String,
    pub backend: String,
}

impl Clone for CaptureDevice {
    fn clone(&self) -> (r: Self)
        ensures
            r == *self,
    {
        CaptureDevice {
            id: self.id.clone(),
            display_name: self.display_name.clone(),
            backend: self.backend.clone(),
        }
    }
}

/// What a configured device id selects.
#[derive(Debug, Clone, PartialEq, Eq)]
pub enum ParsedDevice {
    Test,
    Auto,
    V4l2 { path: String },
    Default,
}

/// How `parse_device_id` classifies the text `s`.
pub open spec fn parsed_device_spec(s: Seq<char>, r: ParsedDevice) -> bool {
    if s == "test"@ {
        r is Test
    } else if unicode_lowercase(trim(s)) == "auto"@ {
        r is Auto
    } else if s == "default"@ || s.len() == 0 {
        r is Auto
    } else if seq_starts_with(s, "v4l2:"@) {
        r matches ParsedDevice::V4l2 { path } && path@ == s.subrange(5, s.len() as int)
    } else if seq_starts_with(s, "/dev/video"@) {
        r matches ParsedDevice::V4l2 { path } && path@ == s
    } else {
        r is Default
    }
}

/// A device id that names a concrete source: the test pattern or a V4L2 node.
pub open spec fn device_id_is_concrete(s: Seq<char>) -> bool {
    if s == "test"@ {
        true
    } else if unicode_lowercase(trim(s)) == "auto"@ {
        false
    } else if s == "default"@ || s.len() == 0 {
        false
    } else {
        seq_starts_with(s, "v4l2:"@) || seq_starts_with(s, "/dev/video"@)
    }
}

/// Classifies a configured device id: the test pattern, automatic selection, a
/// V4L2 node, or anything else.
pub fn parse_device_id(device_id: &str) -> (r: ParsedDevice)
    ensures
        parsed_device_spec(device_id@, r),
{
    let v = str_chars(device_id);
    if chars_eq_str(&v, "test") {
        return ParsedDevice::Test;
    }
    let t = trim_chars(&v);
    let d = to_lowercase_chars(&t);
    if chars_eq_str(&d, "auto") {
        return ParsedDevice::Auto;
    }
    if chars_eq_str(&v, "default") || v.len() == 0 {
        return ParsedDevice::Auto;
    }
    if chars_start_with_str(&v, "v4l2:") {
        proof {
            reveal_strlit("v4l2:");
        }
        let rest = slice_chars(&v, 5, v.len());
        return ParsedDevice::V4l2 { path: string_from_chars(&rest) };
    }
    if chars_start_with_str(&v, "/dev/video") {
        return ParsedDevice::V4l2 { path: string_from_chars(&v) };
    }
    ParsedDevice::Default
}

/// Whether the id names a concrete source (the test pattern or a V4L2 node), so
/// that a capture source can be built from it.
pub fn device_id_concrete(device_id: &str) -> (r: bool)
    ensures
        r == device_id_is_concrete(device_id@),
{
    match parse_device_id(device_id) {
        ParsedDevice::Test => true,
        ParsedDevice::V4l2 { .. } => true,
        _ => false,
    }
}

/// The device list offered to the operator: the test pattern first, then the
/// discovered devices unless in test mode.
pub fn list_devices(test_mode: bool, discovered: Vec<CaptureDevice>) -> (r: Vec<CaptureDevice>)
    ensures
        r@.len() >= 1,
        r@[0].id@ == "test"@,
        r@[0].display_name@ == "Test Pattern (no camera)"@,
        r@[0].backend@ == "test"@,
        test_mode ==> r@.len() == 1,
        !test_mode ==> r@.drop_first() == discovered@,
{
    let mut devices: Vec<CaptureDevice> = Vec::new();
    devices.push(
        CaptureDevice {
            id: String::from_str("test"),
            display_name: String::from_str("Test Pattern (no camera)"),
            backend: String::from_str("test"),
        },
    );
    if !test_mode {
        let ghost first = devices@[0];
        let mut more = discovered;
        devices.append(&mut more);
        assert(devices@.drop_first() =~= discovered@);
    }
    devices
}

/// The client-facing records of `devices`, field for field.
pub fn to_video_devices(devices: &Vec<CaptureDevice>) -> (r: Vec<VideoDevice>)
    ensures
        r@.len() == devices@.len(),
        forall|i: int|
            0 <= i < devices@.len() ==> (#[trigger] r@[i]).id == devices@[i].id && r@[i].display_name
                == devices@[i].display_name && r@[i].backend == devices@[i].backend,
{
    let mut out: Vec<VideoDevice> = Vec::new();
    let mut i: usize = 0;
    while i < devices.len()
        invariant
            i <= devices.len(),
            out@.len() == i,
            forall|j: int|
                0 <= j < i ==> (#[trigger] out@[j]).id == devices@[j].id && out@[j].display_name
                    == devices@[j].display_name && out@[j].backend == devices@[j].backend,
        decreases devices.len() - i,
    {
        let d = &devices[i];
        out.push(
            VideoDevice {
                id: d.id.clone(),
                display_name: d.display_name.clone(),
                backend: d.backend.clone(),
            },
        );
        i = i + 1;
    }
    out
}

/// The operator hint for a raw live-start error: a known cause recognized in the
/// lower-cased text, else the trimmed first line of the raw text.
pub open spec fn error_hint_spec(raw: Seq<char>) -> Seq<char> {
    let lower = unicode_lowercase(raw);
    if seq_contains(lower, "32768"@) {
        "Invalid capture mode — unlock Setup, pick 1080p MJPEG"@
    } else if seq_contains(lower, "not-negotiated"@) || seq_contains(lower, "negotiat"@) {
        "Format not supported — try MJPEG 1080p30 in Setup"@
    } else if seq_contains(lower, "no element"@) || seq_contains(lower, "no such element"@) {
        "GStreamer plugin missing — run doctor-pi on the Pi"@
    } else if seq_contains(lower, "capture not running"@) {
        "Capture not running — wait or unlock Setup to retry"@
    } else if seq_contains(lower, "permission"@) || seq_contains(lower, "denied"@) {
        "Camera permission denied — add user to video group"@
    } else if seq_contains(lower, "no usb capture"@) || seq_contains(lower, "no capture device"@) {
        "No USB capture device — plug in webcam or HDMI card"@
    } else {
        trim(first_line(raw))
    }
}

/// Turns a raw live-start error into a short operator hint.
pub fn live_start_error_hint(raw: &str) -> (r: String)
    ensures
        r@ == error_hint_spec(raw@),
{
    let v = str_chars(raw);
    let lower = to_lowercase_chars(&v);
    if chars_contain_str(&lower, "32768") {
        return String::from_str("Invalid capture mode — unlock Setup, pick 1080p MJPEG");
    }
    if chars_contain_str(&lower, "not-negotiated") || chars_contain_str(&lower, "negotiat") {
        return String::from_str("Format not supported — try MJPEG 1080p30 in Setup");
    }
    if chars_contain_str(&lower, "no element") || chars_contain_str(&lower, "no such element") {
        return String::from_str("GStreamer plugin missing — run doctor-pi on the Pi");
    }
    if chars_contain_str(&lower, "capture not running") {
        return String::from_str("Capture not running — wait or unlock Setup to retry");
    }
    if chars_contain_str(&lower, "permission") || chars_contain_str(&lower, "denied") {
        return String::from_str("Camera permission denied — add user to video group");
    }
    if chars_contain_str(&lower, "no usb capture") || chars_contain_str(&lower, "no capture device") {
        return String::from_str("No USB capture device — plug in webcam or HDMI card");
    }
    let line = first_line_chars(&v);
    let t = trim_chars(&line);
    string_from_chars(&t)
}

/// The one-line operator error: the hint's first line, trimmed, cut to 77
/// characters plus an ellipsis when longer than 80.
pub open spec fn short_error_spec(raw: Seq<char>) -> Seq<char> {
    let line = trim(first_line(error_hint_spec(raw)));
    if line.len() <= 80 {
        line
    } else {
        line.take(77).push('…')
    }
}

/// Operator banner / toast text: one line of at most 80 characters.
pub fn short_operator_error(raw: &str) -> (r: String)
    ensures
        r@ == short_error_spec(raw@),
        r@.len() <= 80,
{
    let hint = live_start_error_hint(raw);
    let hv = str_chars(hint.as_str());
    let first = first_line_chars(&hv);
    let line = trim_chars(&first);
    if line.len() <= 80 {
        string_from_chars(&line)
    } else {
        let mut cut = slice_chars(&line, 0, 77);
        cut.push('…');
        proof {
            assert(line@.subrange(0, 77) =~= line@.take(77));
        }
        string_from_chars(&cut)
    }
}

/// The supported modes of a device (see `format_probe::probe_formats`; `caps` are
/// the caps probed from the device's node).
pub fn list_formats(device_id: &str, caps: Option<Vec<CapsStructure>>) -> (r: Vec<VideoFormat>)
    ensures
        v4l2_path_spec(device_id@) is None || probed_modes(caps).len() == 0 ==> modes_view(r@)
            == fallback_modes(),
        v4l2_path_spec(device_id@) is Some && probed_modes(caps).len() > 0 ==> exists|
            probed: Seq<VideoFormat>,
        | modes_view(probed) == probed_modes(caps) && r@ == #[trigger] ordered_modes(probed),
{
    probe_formats(device_id, caps)
}

} // verus!
