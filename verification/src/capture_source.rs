//! GStreamer source fragments for the capture pipeline: V4L2 capture or the test
//! pattern.
use vstd::prelude::*;

use crate::devices::{device_id_is_concrete, parse_device_id, parsed_device_spec, ParsedDevice};
use crate::text::{
    chars_contain_str, chars_eq_str, decimal, decimal_u64, push_chars, push_str, seq_contains,
    str_chars, string_from_chars, to_lowercase_chars, trim, trim_chars, unicode_lowercase,
};

verus! {

/// `width=W,height=H,framerate=F/1`.
pub open spec fn size_rate_spec(width: u32, height: u32, fps: u32) -> Seq<char> {
    "width="@ + decimal(width as nat) + ",height="@ + decimal(height as nat) + ",framerate="@ + decimal(
        fps as nat,
    ) + "/1"@
}

fn push_size_rate(v: &mut Vec<char>, width: u32, height: u32, fps: u32)
    ensures
        final(v)@ == old(v)@ + size_rate_spec(width, height, fps),
{
    push_str(v, "width=");
    push_chars(v, &decimal_u64(width as u64));
    push_str(v, ",height=");
    push_chars(v, &decimal_u64(height as u64));
    push_str(v, ",framerate=");
    push_chars(v, &decimal_u64(fps as u64));
    push_str(v, "/1");
    assert(final(v)@ =~= old(v)@ + size_rate_spec(width, height, fps));
}

/// The test-pattern source at the given size and rate.
pub open spec fn test_source_spec(width: u32, height: u32, fps: u32) -> Seq<char> {
    "videotestsrc is-live=true pattern=ball ! video/x-raw,"@ + size_rate_spec(width, height, fps)
}

pub fn test_source(width: u32, height: u32, fps: u32) -> (r: String)
    ensures
        r@ == test_source_spec(width, height, fps),
{
    let mut v = str_chars("videotestsrc is-live=true pattern=ball ! video/x-raw,");
    push_size_rate(&mut v, width, height, fps);
    string_from_chars(&v)
}

/// How the capture stream is encoded.
#[derive(Debug, Clone, Copy, PartialEq, Eq, Structural)]
pub enum PixelKind {
    Mjpeg,
    H264,
    Raw,
}

/// The encoding a configured pixel format names (by its lower-cased text).
pub open spec fn pixel_kind_spec(pixel_format: Seq<char>) -> PixelKind {
    let p = unicode_lowercase(pixel_format);
    if seq_contains(p, "mjpeg"@) || seq_contains(p, "jpeg"@) || p == "image/jpeg"@ {
        PixelKind::Mjpeg
    } else if seq_contains(p, "h264"@) {
        PixelKind::H264
    } else {
        PixelKind::Raw
    }
}

pub fn normalize_pixel_format(pixel_format: &str) -> (r: PixelKind)
    ensures
        r == pixel_kind_spec(pixel_format@),
{
    let v = str_chars(pixel_format);
    let p = to_lowercase_chars(&v);
    if chars_contain_str(&p, "mjpeg") || chars_contain_str(&p, "jpeg") || chars_eq_str(&p, "image/jpeg") {
        PixelKind::Mjpeg
    } else if chars_contain_str(&p, "h264") {
        PixelKind::H264
    } else {
        PixelKind::Raw
    }
}

/// The V4L2 I/O mode for a configured setting: `dmabuf`, `mmap`, `read` or
/// `auto` when the trimmed setting is one of them, else `dmabuf`.
pub open spec fn io_mode_spec(setting: Option<Seq<char>>) -> Seq<char> {
    match setting {
        Some(s) => {
            let t = trim(s);
            if t == "dmabuf"@ {
                "dmabuf"@
            } else if t == "mmap"@ {
                "mmap"@
            } else if t == "read"@ {
                "read"@
            } else if t == "auto"@ {
                "auto"@
            } else {
                "dmabuf"@
            }
        },
        None => "dmabuf"@,
    }
}

/// Chooses the V4L2 I/O mode from the `INSTANT_REPLAY_V4L2_IO_MODE` setting.
pub fn v4l2_io_mode(setting: Option<&str>) -> (r: &'static str)
    ensures
        r@ == io_mode_spec(
            match setting {
                Some(s) => Some(s@),
                None => None,
            },
        ),
{
    match setting {
        Some(s) => {
            let v = str_chars(s);
            let t = trim_chars(&v);
            if chars_eq_str(&t, "dmabuf") {
                "dmabuf"
            } else if chars_eq_str(&t, "mmap") {
                "mmap"
            } else if chars_eq_str(&t, "read") {
                "read"
            } else if chars_eq_str(&t, "auto") {
                "auto"
            } else {
                "dmabuf"
            }
        },
        None => "dmabuf",
    }
}

/// The V4L2 source for `path` with caps and decoder for the pixel format.
pub open spec fn v4l2_source_spec(
    path: Seq<char>,
    width: u32,
    height: u32,
    fps: u32,
    pixel_format: Seq<char>,
    io_mode: Seq<char>,
) -> Seq<char> {
    let base = "v4l2src device="@ + path + " io-mode="@ + io_mode;
    match pixel_kind_spec(pixel_format) {
        PixelKind::Mjpeg => base + " ! image/jpeg,"@ + size_rate_spec(width, height, fps) + " ! jpegdec"@,
        PixelKind::H264 => base + " ! video/x-h264,"@ + size_rate_spec(width, height, fps)
            + " ! h264parse ! avdec_h264"@,
        PixelKind::Raw => base + " ! video/x-raw,"@ + size_rate_spec(width, height, fps),
    }
}

pub fn v4l2_source(path: &str, width: u32, height: u32, fps: u32, pixel_format: &str, io_mode: &str) -> (r: String)
    ensures
        r@ == v4l2_source_spec(path@, width, height, fps, pixel_format@, io_mode@),
{
    let mut v = str_chars("v4l2src device=");
    push_str(&mut v, path);
    push_str(&mut v, " io-mode=");
    push_str(&mut v, io_mode);
    match normalize_pixel_format(pixel_format) {
        PixelKind::Mjpeg => {
            push_str(&mut v, " ! image/jpeg,");
            push_size_rate(&mut v, width, height, fps);
            push_str(&mut v, " ! jpegdec");
        },
        PixelKind::H264 => {
            push_str(&mut v, " ! video/x-h264,");
            push_size_rate(&mut v, width, height, fps);
            push_str(&mut v, " ! h264parse ! avdec_h264");
        },
        PixelKind::Raw => {
            push_str(&mut v, " ! video/x-raw,");
            push_size_rate(&mut v, width, height, fps);
        },
    }
    string_from_chars(&v)
}

/// The source fragment for a resolved device id: the test pattern for `test`, the
/// V4L2 source for a `v4l2:` or `/dev/video` id.
pub open spec fn source_element_spec(
    device_id: Seq<char>,
    width: u32,
    height: u32,
    fps: u32,
    pixel_format: Seq<char>,
    io_mode: Seq<char>,
) -> Seq<char> {
    if device_id == "test"@ {
        test_source_spec(width, height, fps)
    } else if crate::text::seq_starts_with(device_id, "v4l2:"@) {
        v4l2_source_spec(device_id.subrange(5, device_id.len() as int), width, height, fps, pixel_format, io_mode)
    } else {
        v4l2_source_spec(device_id, width, height, fps, pixel_format, io_mode)
    }
}

/// Builds the capture source fragment. The device id must already be resolved (not
/// `auto` or `default`).
pub fn build_source_element(
    device_id: &str,
    width: u32,
    height: u32,
    fps: u32,
    pixel_format: &str,
    io_mode: &str,
) -> (r: String)
    requires
        device_id_is_concrete(device_id@),
    ensures
        r@ == source_element_spec(device_id@, width, height, fps, pixel_format@, io_mode@),
{
    let parsed = parse_device_id(device_id);
    match parsed {
        ParsedDevice::V4l2 { path } => v4l2_source(path.as_str(), width, height, fps, pixel_format, io_mode),
        _ => test_source(width, height, fps),
    }
}

} // verus!
