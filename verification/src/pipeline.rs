//! GStreamer pipeline descriptions: the capture pipeline (live program output plus
//! the rolling buffer recorder) and the replay bin.
use vstd::prelude::*;

use crate::capture_source::{build_source_element, source_element_spec};
use crate::devices::device_id_is_concrete;
use crate::text::{
    decimal, decimal_u64, join_path_spec, push_chars, push_str, str_chars, string_from_chars,
};

verus! {

/// The on-screen program sink, with or without the status overlay.
pub open spec fn program_sink_spec(show_overlay: bool) -> Seq<char> {
    if show_overlay {
        "videoconvert ! textoverlay name=status_overlay text=\"LIVE\" valignment=top halignment=left font-desc=\"Sans Bold 28\" ! glimagesink name=program_sink sync=false"@
    } else {
        "videoconvert ! glimagesink name=program_sink sync=false"@
    }
}

/// The frame-discarding sink used without a display.
pub open spec fn headless_sink_spec(show_overlay: bool) -> Seq<char> {
    if show_overlay {
        "videoconvert ! textoverlay name=status_overlay text=\"LIVE\" valignment=top halignment=left font-desc=\"Sans Bold 28\" ! fakesink name=program_sink sync=false"@
    } else {
        "videoconvert ! fakesink name=program_sink sync=false"@
    }
}

/// GStreamer video sink element (after the live/replay input selector).
pub fn program_sink_element(show_overlay: bool) -> (r: String)
    ensures
        r@ == program_sink_spec(show_overlay),
{
    if show_overlay {
        String::from_str(
            "videoconvert ! textoverlay name=status_overlay text=\"LIVE\" valignment=top halignment=left font-desc=\"Sans Bold 28\" ! glimagesink name=program_sink sync=false",
        )
    } else {
        String::from_str("videoconvert ! glimagesink name=program_sink sync=false")
    }
}

/// Input selector for live/replay switching, then the program sink.
pub fn program_output_chain(show_overlay: bool) -> (r: String)
    ensures
        r@ == "input-selector name=outsel ! "@ + program_sink_spec(show_overlay),
{
    let mut v = str_chars("input-selector name=outsel ! ");
    let sink = program_sink_element(show_overlay);
    push_str(&mut v, sink.as_str());
    string_from_chars(&v)
}

/// Input selector, then a sink that discards frames (no native window).
pub fn headless_output_chain(show_overlay: bool) -> (r: String)
    ensures
        r@ == "input-selector name=outsel ! "@ + headless_sink_spec(show_overlay),
{
    let mut v = str_chars("input-selector name=outsel ! ");
    if show_overlay {
        push_str(
            &mut v,
            "videoconvert ! textoverlay name=status_overlay text=\"LIVE\" valignment=top halignment=left font-desc=\"Sans Bold 28\" ! fakesink name=program_sink sync=false",
        );
    } else {
        push_str(&mut v, "videoconvert ! fakesink name=program_sink sync=false");
    }
    string_from_chars(&v)
}

/// Every `\` of `s` replaced by `/`.
pub open spec fn forward_slashes(s: Seq<char>) -> Seq<char> {
    s.map_values(|c: char| if c == '\\' { '/' } else { c })
}

fn push_forward_slashes(v: &mut Vec<char>, s: &Vec<char>)
    ensures
        final(v)@ == old(v)@ + forward_slashes(s@),
{
    let ghost start = v@;
    let mut i: usize = 0;
    while i < s.len()
        invariant
            i <= s.len(),
            v@ == start + forward_slashes(s@.take(i as int)),
        decreases s.len() - i,
    {
        let c = s[i];
        v.push(if c == '\\' { '/' } else { c });
        i = i + 1;
        assert(forward_slashes(s@.take(i as int)) =~= forward_slashes(s@.take((i - 1) as int)).push(
            if c == '\\' { '/' } else { c },
        ));
    }
    assert(s@.take(i as int) =~= s@);
}

/// A path as GStreamer's `location` expects it (forward slashes).
pub fn path_for_gst(path: &str) -> (r: String)
    ensures
        r@ == forward_slashes(path@),
{
    let mut v: Vec<char> = Vec::new();
    let p = str_chars(path);
    push_forward_slashes(&mut v, &p);
    assert(v@ =~= forward_slashes(path@));
    string_from_chars(&v)
}

/// The x264 encoder used for the buffer recording.
pub open spec fn buffer_encoder_spec() -> Seq<char> {
    "x264enc speed-preset=ultrafast tune=zerolatency key-int-max=60"@
}

pub fn buffer_encoder_element() -> (r: &'static str)
    ensures
        r@ == buffer_encoder_spec(),
{
    "x264enc speed-preset=ultrafast tune=zerolatency key-int-max=60"
}

/// Number of chunk files the recorder keeps: the buffer length over the chunk
/// length, plus two.
pub open spec fn max_files_spec(buffer_seconds: u32, chunk_seconds: u32) -> int {
    buffer_seconds / (if chunk_seconds > 1 { chunk_seconds } else { 1 }) + 2
}

/// The capture pipeline: source, scaling to the capture caps, a tee feeding the
/// live program output (through a leaky queue and a valve) and the rolling buffer
/// recorder (x264 into chunked Matroska files under `buffer_path`).
pub open spec fn pipeline_description_spec(
    source: Seq<char>,
    width: u32,
    height: u32,
    fps: u32,
    output: Seq<char>,
    location: Seq<char>,
    chunk_seconds: u32,
    max_files: int,
) -> Seq<char> {
    source + " ! videoconvert ! videoscale ! video/x-raw,width="@ + decimal(width as nat) + ",height="@
        + decimal(height as nat) + ",framerate="@ + decimal(fps as nat)
        + "/1 ! tee name=capture_tee capture_tee. ! queue name=live_queue leaky=downstream max-size-time=50000000 ! valve name=live_valve drop=false ! videoconvert ! "@
        + output
        + " capture_tee. ! queue max-size-buffers=120 max-size-time=0 ! videoconvert ! "@
        + buffer_encoder_spec() + " ! h264parse ! splitmuxsink name=splitmux location=\""@ + location
        + "\" muxer=matroskamux max-size-time="@ + decimal(chunk_seconds as nat * 1_000_000_000)
        + " max-files="@ + decimal(max_files as nat)
        + " async-finalize=false send-keyframe-requests=true"@
}

/// Builds the capture pipeline description.
pub fn build_pipeline_description(
    device_id: &str,
    width: u32,
    height: u32,
    fps: u32,
    pixel_format: &str,
    show_status_overlay: bool,
    headless: bool,
    buffer_path: &str,
    chunk_seconds: u32,
    buffer_seconds: u32,
    io_mode: &str,
) -> (r: String)
    requires
        device_id_is_concrete(device_id@),
        max_files_spec(buffer_seconds, chunk_seconds) <= u32::MAX,
    ensures
        r@ == pipeline_description_spec(
            source_element_spec(device_id@, width, height, fps, pixel_format@, io_mode@),
            width,
            height,
            fps,
            if headless {
                "input-selector name=outsel ! "@ + headless_sink_spec(show_status_overlay)
            } else {
                "input-selector name=outsel ! "@ + program_sink_spec(show_status_overlay)
            },
            forward_slashes(join_path_spec(buffer_path@, "chunk_%05d.mkv"@)),
            chunk_seconds,
            max_files_spec(buffer_seconds, chunk_seconds),
        ),
{
    let base = str_chars(buffer_path);
    let mut joined = str_chars(buffer_path);
    if base.len() == 0 || base[base.len() - 1] == '/' {
        push_str(&mut joined, "chunk_%05d.mkv");
    } else {
        push_str(&mut joined, "/chunk_%05d.mkv");
    }
    proof {
        reveal_strlit("/chunk_%05d.mkv");
        reveal_strlit("chunk_%05d.mkv");
        reveal_strlit("/");
        assert("/"@ + "chunk_%05d.mkv"@ =~= "/chunk_%05d.mkv"@);
        assert(base@ + "/"@ + "chunk_%05d.mkv"@ =~= base@ + "/chunk_%05d.mkv"@);
    }
    let source = build_source_element(device_id, width, height, fps, pixel_format, io_mode);
    let chunk_ns: u64 = (chunk_seconds as u64) * 1_000_000_000;
    let cs: u32 = if chunk_seconds > 1 {
        chunk_seconds
    } else {
        1
    };
    let max_files: u32 = buffer_seconds / cs + 2;
    let output = if headless {
        headless_output_chain(show_status_overlay)
    } else {
        program_output_chain(show_status_overlay)
    };
    let mut v = str_chars(source.as_str());
    push_str(&mut v, " ! videoconvert ! videoscale ! video/x-raw,width=");
    push_chars(&mut v, &decimal_u64(width as u64));
    push_str(&mut v, ",height=");
    push_chars(&mut v, &decimal_u64(height as u64));
    push_str(&mut v, ",framerate=");
    push_chars(&mut v, &decimal_u64(fps as u64));
    push_str(
        &mut v,
        "/1 ! tee name=capture_tee capture_tee. ! queue name=live_queue leaky=downstream max-size-time=50000000 ! valve name=live_valve drop=false ! videoconvert ! ",
    );
    push_str(&mut v, output.as_str());
    push_str(&mut v, " capture_tee. ! queue max-size-buffers=120 max-size-time=0 ! videoconvert ! ");
    push_str(&mut v, buffer_encoder_element());
    push_str(&mut v, " ! h264parse ! splitmuxsink name=splitmux location=\"");
    push_forward_slashes(&mut v, &joined);
    push_str(&mut v, "\" muxer=matroskamux max-size-time=");
    push_chars(&mut v, &decimal_u64(chunk_ns));
    push_str(&mut v, " max-files=");
    push_chars(&mut v, &decimal_u64(max_files as u64));
    push_str(&mut v, " async-finalize=false send-keyframe-requests=true");
    string_from_chars(&v)
}

/// One input of the multi-segment replay: a file demuxed into the concat element.
pub open spec fn concat_input_spec(path: Seq<char>) -> Seq<char> {
    "filesrc location=\""@ + forward_slashes(path) + "\" ! matroskademux ! h264parse ! queue ! con. "@
}

/// The inputs of all `segments`, in order.
pub open spec fn concat_inputs_spec(segments: Seq<String>) -> Seq<char>
    decreases segments.len(),
{
    if segments.len() == 0 {
        Seq::empty()
    } else {
        concat_inputs_spec(segments.drop_last()) + concat_input_spec(segments.last()@)
    }
}

/// The replay bin: one file decoded directly, or several concatenated in order;
/// its output is the `replay_out` queue.
pub open spec fn replay_description_spec(segments: Seq<String>) -> Seq<char> {
    if segments.len() == 1 {
        "filesrc location=\""@ + forward_slashes(segments[0]@)
            + "\" ! matroskademux ! h264parse ! avdec_h264 ! videoconvert ! queue name=replay_out"@
    } else {
        concat_inputs_spec(segments)
            + "concat name=con ! h264parse ! avdec_h264 ! videoconvert ! queue name=replay_out"@
    }
}

/// Builds the replay bin description for the segments, oldest first.
pub fn build_replay_description(segments: &Vec<String>) -> (r: String)
    ensures
        r@ == replay_description_spec(segments@),
{
    if segments.len() == 1 {
        let mut v = str_chars("filesrc location=\"");
        let p = str_chars(segments[0].as_str());
        push_forward_slashes(&mut v, &p);
        push_str(&mut v, "\" ! matroskademux ! h264parse ! avdec_h264 ! videoconvert ! queue name=replay_out");
        return string_from_chars(&v);
    }
    let mut v: Vec<char> = Vec::new();
    let mut i: usize = 0;
    while i < segments.len()
        invariant
            i <= segments.len(),
            v@ == concat_inputs_spec(segments@.take(i as int)),
        decreases segments.len() - i,
    {
        proof {
            assert(segments@.take(i + 1).drop_last() =~= segments@.take(i as int));
        }
        push_str(&mut v, "filesrc location=\"");
        let p = str_chars(segments[i].as_str());
        push_forward_slashes(&mut v, &p);
        push_str(&mut v, "\" ! matroskademux ! h264parse ! queue ! con. ");
        i = i + 1;
        assert(v@ =~= concat_inputs_spec(segments@.take(i as int)));
    }
    assert(segments@.take(i as int) =~= segments@);
    push_str(&mut v, "concat name=con ! h264parse ! avdec_h264 ! videoconvert ! queue name=replay_out");
    string_from_chars(&v)
}

} // verus!
