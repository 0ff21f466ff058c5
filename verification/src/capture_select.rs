//! Capture device filtering and venue-friendly mode selection.
use vstd::prelude::*;

use crate::config::{resolution_pair_spec, parse_resolution_pair_chars, InputConfig};
use crate::devices::{device_id_concrete, device_id_is_concrete, CaptureDevice};
use crate::text::{
    chars_contain_str, chars_eq, chars_eq_ignore_ascii_case, chars_eq_str, chars_start_with_str,
    eq_ignore_ascii_case, push_chars, push_str, seq_contains, seq_starts_with, str_chars,
    string_from_chars, to_lowercase_chars, to_uppercase_chars, trim, trim_chars,
    unicode_lowercase, unicode_uppercase, insert_text, sort_strings, sort_texts, text_lt, texts_of,
};
use crate::types::{DisplayInfo, VideoFormat};

verus! {

pub const MIN_CAPTURE_EDGE: i32 = 640;

pub const MAX_CAPTURE_DIM: i32 = 3840;

pub const MAX_CAPTURE_FPS: i32 = 120;

/// Resolved capture parameters ready for starting live capture.
#[derive(Debug, Clone, PartialEq, Eq)]
pub struct ResolvedInput {
    pub device_id: String,
    pub width: u32,
    pub height: u32,
    pub fps: u32,
    pub pixel_format: String,
}

/// Why input resolution failed.
#[derive(Debug, Clone, Copy, PartialEq, Eq, Structural)]
pub enum CaptureSelectError {
    /// No usable capture device was found.
    NoCaptureDevice,
}

impl CaptureSelectError {
    /// Operator-facing text of the error.
    pub fn message(&self) -> (r: String)
        ensures
            r@ == "No USB capture device found. Connect a webcam or HDMI capture card (UVC), then retry."@,
    {
        String::from_str(
            "No USB capture device found. Connect a webcam or HDMI capture card (UVC), then retry.",
        )
    }
}

/// Integer division truncating toward zero, as Rust's `/` does, for `b > 0`.
pub open spec fn trunc_div(a: int, b: int) -> int {
    if a >= 0 {
        a / b
    } else {
        -((-a) / b)
    }
}

/// Frames per second of a mode (0 when the denominator is not positive).
pub open spec fn fps_of(f: VideoFormat) -> int {
    if f.fps_den > 0 {
        trunc_div(f.fps_num as int, f.fps_den as int)
    } else {
        0
    }
}

fn fps_exec(f: &VideoFormat) -> (r: i32)
    ensures
        r == fps_of(*f),
{
    if f.fps_den > 0 {
        f.fps_num / f.fps_den
    } else {
        0
    }
}

/// Card names of the Pi's own platform video nodes (ISP, codecs), lower-cased.
pub open spec fn is_internal_platform_name(lower: Seq<char>) -> bool {
    ||| seq_contains(lower, "pispbe"@)
    ||| seq_contains(lower, "pisp_be"@)
    ||| seq_contains(lower, "rpi-hevc"@)
    ||| seq_contains(lower, "hevc"@)
    ||| seq_contains(lower, "bcm2835"@)
    ||| seq_contains(lower, "codec"@)
    ||| seq_contains(lower, "bcm2835-codec"@)
}

/// Whether a V4L2 card belongs to the Pi's own platform (not a capture device).
pub fn is_internal_platform_device(card_name: &str) -> (r: bool)
    ensures
        r == is_internal_platform_name(unicode_lowercase(card_name@)),
{
    let v = str_chars(card_name);
    let lower = to_lowercase_chars(&v);
    chars_contain_str(&lower, "pispbe") || chars_contain_str(&lower, "pisp_be") || chars_contain_str(
        &lower,
        "rpi-hevc",
    ) || chars_contain_str(&lower, "hevc") || chars_contain_str(&lower, "bcm2835")
        || chars_contain_str(&lower, "codec") || chars_contain_str(&lower, "bcm2835-codec")
}

/// A small greyscale-only mode (IR sensors and the like).
pub open spec fn grey_only_small(f: VideoFormat) -> bool {
    seq_contains(unicode_uppercase(f.pixel_format@), "GREY"@) && f.width < MIN_CAPTURE_EDGE
        && f.height < MIN_CAPTURE_EDGE
}

pub fn is_grey_only_small(f: &VideoFormat) -> (r: bool)
    ensures
        r == grey_only_small(*f),
{
    let v = str_chars(f.pixel_format.as_str());
    let upper = to_uppercase_chars(&v);
    chars_contain_str(&upper, "GREY") && f.width < MIN_CAPTURE_EDGE && f.height < MIN_CAPTURE_EDGE
}

/// A mode the appliance can capture: large enough, not oversize, at most 120 fps,
/// and not a small greyscale mode.
pub open spec fn is_usable_format(f: VideoFormat) -> bool {
    &&& (f.width >= MIN_CAPTURE_EDGE || f.height >= MIN_CAPTURE_EDGE)
    &&& f.width <= MAX_CAPTURE_DIM && f.height <= MAX_CAPTURE_DIM
    &&& fps_of(f) <= MAX_CAPTURE_FPS
    &&& !grey_only_small(f)
}

/// The usable modes of `s`, in order.
pub open spec fn usable_spec(s: Seq<VideoFormat>) -> Seq<VideoFormat>
    decreases s.len(),
{
    if s.len() == 0 {
        Seq::empty()
    } else {
        let rest = usable_spec(s.drop_last());
        if is_usable_format(s.last()) {
            rest.push(s.last())
        } else {
            rest
        }
    }
}

/// Keeps the probed modes of a device that the appliance can capture.
pub fn usable_formats(probed: &Vec<VideoFormat>) -> (r: Vec<VideoFormat>)
    ensures
        r@ == usable_spec(probed@),
{
    let mut out: Vec<VideoFormat> = Vec::new();
    let mut i: usize = 0;
    while i < probed.len()
        invariant
            i <= probed.len(),
            out@ == usable_spec(probed@.take(i as int)),
        decreases probed.len() - i,
    {
        let f = &probed[i];
        proof {
            assert(probed@.take(i + 1).drop_last() =~= probed@.take(i as int));
        }
        let fps = fps_exec(f);
        if (f.width >= MIN_CAPTURE_EDGE || f.height >= MIN_CAPTURE_EDGE) && f.width <= MAX_CAPTURE_DIM
            && f.height <= MAX_CAPTURE_DIM && fps <= MAX_CAPTURE_FPS && !is_grey_only_small(f) {
            out.push(f.clone());
        }
        i = i + 1;
    }
    assert(probed@.take(probed.len() as int) =~= probed@);
    out
}

/// Frames per second as the score computes it (unsigned division).
pub open spec fn score_fps(f: VideoFormat) -> int {
    if f.fps_den > 0 {
        ((f.fps_num as u64) / (f.fps_den as u64)) as int
    } else {
        0
    }
}

/// Bonus for compressed modes (MJPEG or H.264).
pub open spec fn score_bonus(f: VideoFormat) -> int {
    let upper = unicode_uppercase(f.pixel_format@);
    if seq_contains(upper, "MJPEG"@) || seq_contains(upper, "H264"@) {
        1_000_000
    } else {
        0
    }
}

/// Venue score of a mode: pixels per second plus a bonus for compressed modes.
pub open spec fn score_spec(f: VideoFormat) -> int {
    (f.width as u64) * (f.height as u64) * (if score_fps(f) > 1 {
        score_fps(f)
    } else {
        1
    }) + score_bonus(f)
}

/// The score of `f` fits in `u64`.
pub open spec fn score_fits(f: VideoFormat) -> bool {
    score_spec(f) <= u64::MAX
}

/// Every mode of `s` has a score that fits in `u64`.
pub open spec fn all_scores_fit(s: Seq<VideoFormat>) -> bool {
    forall|i: int| 0 <= i < s.len() ==> score_fits(#[trigger] s[i])
}

/// Whether the score of `f` fits in `u64`.
pub fn score_fits_exec(f: &VideoFormat) -> (r: bool)
    ensures
        r == score_fits(*f),
{
    let fps: u64 = if f.fps_den > 0 {
        (f.fps_num as u64) / (f.fps_den as u64)
    } else {
        0
    };
    let v = str_chars(f.pixel_format.as_str());
    let upper = to_uppercase_chars(&v);
    let pf_bonus: u64 = if chars_contain_str(&upper, "MJPEG") || chars_contain_str(&upper, "H264") {
        1_000_000
    } else {
        0
    };
    let m: u64 = if fps > 1 {
        fps
    } else {
        1
    };
    let w = f.width as u64;
    let h = f.height as u64;
    match w.checked_mul(h) {
        None => {
            proof {
                assert(w * h <= w * h * m) by (nonlinear_arith)
                    requires
                        m >= 1,
                ;
            }
            false
        },
        Some(wh) => match wh.checked_mul(m) {
            None => false,
            Some(whm) => whm <= u64::MAX - pf_bonus,
        },
    }
}

/// Whether every mode of `formats` has a score that fits in `u64`.
pub fn all_scores_fit_exec(formats: &Vec<VideoFormat>) -> (r: bool)
    ensures
        r == all_scores_fit(formats@),
{
    let mut i: usize = 0;
    while i < formats.len()
        invariant
            i <= formats@.len(),
            forall|j: int| 0 <= j < i ==> score_fits(#[trigger] formats@[j]),
        decreases formats@.len() - i,
    {
        if !score_fits_exec(&formats[i]) {
            return false;
        }
        i = i + 1;
    }
    true
}

pub fn format_score(f: &VideoFormat) -> (r: u64)
    requires
        score_fits(*f),
    ensures
        r == score_spec(*f),
{
    let fps: u64 = if f.fps_den > 0 {
        (f.fps_num as u64) / (f.fps_den as u64)
    } else {
        0
    };
    let v = str_chars(f.pixel_format.as_str());
    let upper = to_uppercase_chars(&v);
    let pf_bonus: u64 = if chars_contain_str(&upper, "MJPEG") || chars_contain_str(&upper, "H264") {
        1_000_000
    } else {
        0
    };
    let m: u64 = if fps > 1 {
        fps
    } else {
        1
    };
    let w = f.width as u64;
    let h = f.height as u64;
    proof {
        assert(w * h * m + pf_bonus <= u64::MAX);
        assert(w * h <= w * h * m) by (nonlinear_arith)
            requires
                m >= 1,
        ;
    }
    w * h * m + pf_bonus
}

/// The `p`-th venue preference: width, height, minimum fps, pixel format family.
pub open spec fn preference(p: int) -> (i32, i32, i32, Seq<char>) {
    if p == 0 {
        (1920, 1080, 60, "MJPEG"@)
    } else if p == 1 {
        (1920, 1080, 50, "MJPEG"@)
    } else if p == 2 {
        (1920, 1080, 60, "H264"@)
    } else if p == 3 {
        (1920, 1080, 50, "H264"@)
    } else if p == 4 {
        (1920, 1080, 30, "MJPEG"@)
    } else if p == 5 {
        (1920, 1080, 30, "H264"@)
    } else if p == 6 {
        (1280, 720, 60, "MJPEG"@)
    } else if p == 7 {
        (1280, 720, 50, "MJPEG"@)
    } else if p == 8 {
        (1280, 720, 30, "MJPEG"@)
    } else if p == 9 {
        (1280, 720, 30, "auto"@)
    } else {
        (640, 480, 30, "MJPEG"@)
    }
}

/// Number of venue preferences.
pub open spec fn preference_count() -> int {
    11
}

fn preference_at(p: usize) -> (r: (i32, i32, i32, &'static str))
    requires
        p < 11,
    ensures
        r.0 == preference(p as int).0,
        r.1 == preference(p as int).1,
        r.2 == preference(p as int).2,
        r.3@ == preference(p as int).3,
{
    if p == 0 {
        (1920, 1080, 60, "MJPEG")
    } else if p == 1 {
        (1920, 1080, 50, "MJPEG")
    } else if p == 2 {
        (1920, 1080, 60, "H264")
    } else if p == 3 {
        (1920, 1080, 50, "H264")
    } else if p == 4 {
        (1920, 1080, 30, "MJPEG")
    } else if p == 5 {
        (1920, 1080, 30, "H264")
    } else if p == 6 {
        (1280, 720, 60, "MJPEG")
    } else if p == 7 {
        (1280, 720, 50, "MJPEG")
    } else if p == 8 {
        (1280, 720, 30, "MJPEG")
    } else if p == 9 {
        (1280, 720, 30, "auto")
    } else {
        (640, 480, 30, "MJPEG")
    }
}

/// `f` satisfies a venue preference: exact size, at least `fps`, and the pixel
/// format family (`auto` accepts any; `MJPEG` also accepts `JPEG`).
pub open spec fn matches_preference(f: VideoFormat, w: i32, h: i32, fps: i32, pf: Seq<char>) -> bool {
    if f.width != w || f.height != h {
        false
    } else if fps_of(f) < fps {
        false
    } else if pf == "auto"@ {
        true
    } else {
        let upper = unicode_uppercase(f.pixel_format@);
        if pf == "MJPEG"@ {
            seq_contains(upper, "MJPEG"@) || seq_contains(upper, "JPEG"@)
        } else if pf == "H264"@ {
            seq_contains(upper, "H264"@)
        } else {
            seq_contains(upper, pf)
        }
    }
}

pub fn format_matches_preference(f: &VideoFormat, w: i32, h: i32, fps: i32, pf: &str) -> (r: bool)
    ensures
        r == matches_preference(*f, w, h, fps, pf@),
{
    if f.width != w || f.height != h {
        return false;
    }
    let actual_fps = fps_exec(f);
    if actual_fps < fps {
        return false;
    }
    let pfv = str_chars(pf);
    if chars_eq_str(&pfv, "auto") {
        return true;
    }
    let v = str_chars(f.pixel_format.as_str());
    let upper = to_uppercase_chars(&v);
    if chars_eq_str(&pfv, "MJPEG") {
        return chars_contain_str(&upper, "MJPEG") || chars_contain_str(&upper, "JPEG");
    }
    if chars_eq_str(&pfv, "H264") {
        return chars_contain_str(&upper, "H264");
    }
    chars_contain_str(&upper, pf)
}

/// Index of the first mode of `s` that satisfies preference `p`.
pub open spec fn first_match(s: Seq<VideoFormat>, p: int) -> Option<int>
    decreases s.len(),
{
    if s.len() == 0 {
        None
    } else {
        match first_match(s.drop_last(), p) {
            Some(i) => Some(i),
            None => if matches_preference(
                s.last(),
                preference(p).0,
                preference(p).1,
                preference(p).2,
                preference(p).3,
            ) {
                Some(s.len() - 1)
            } else {
                None
            },
        }
    }
}

/// The mode the preferences pick, trying preferences from `p` onwards in order.
pub open spec fn pick_by_preferences(s: Seq<VideoFormat>, p: int) -> Option<int>
    decreases preference_count() - p,
{
    if p >= preference_count() || p < 0 {
        None
    } else {
        match first_match(s, p) {
            Some(i) => Some(i),
            None => pick_by_preferences(s, p + 1),
        }
    }
}

/// Index of the last mode with the highest score (what `max_by_key` returns).
pub open spec fn last_max_score_index(s: Seq<VideoFormat>) -> int
    decreases s.len(),
{
    if s.len() <= 1 {
        0
    } else {
        let i = last_max_score_index(s.drop_last());
        if score_spec(s.last()) >= score_spec(s[i]) {
            s.len() - 1
        } else {
            i
        }
    }
}

/// The venue mode: the first mode meeting the earliest satisfiable preference,
/// else the highest-scoring mode (the last one among equals); none for no modes.
pub open spec fn venue_pick_spec(s: Seq<VideoFormat>) -> Option<VideoFormat> {
    if s.len() == 0 {
        None
    } else {
        match pick_by_preferences(s, 0) {
            Some(i) => Some(s[i]),
            None => Some(s[last_max_score_index(s)]),
        }
    }
}

/// `f` is a 1920x1080 mode at `fps` frames per second or more in the pixel format
/// family `pf` (Motion-JPEG when `pf` is `MJPEG`, H.264 when it is `H264`).
pub open spec fn full_hd_at_least(f: VideoFormat, fps: int, pf: Seq<char>) -> bool {
    &&& f.width == 1920
    &&& f.height == 1080
    &&& fps_of(f) >= fps
    &&& (pf == "MJPEG"@ ==> seq_contains(unicode_uppercase(f.pixel_format@), "MJPEG"@) || seq_contains(
        unicode_uppercase(f.pixel_format@),
        "JPEG"@,
    ))
    &&& (pf == "H264"@ ==> seq_contains(unicode_uppercase(f.pixel_format@), "H264"@))
}

proof fn lemma_first_match(s: Seq<VideoFormat>, p: int)
    ensures
        first_match(s, p) matches Some(i) ==> 0 <= i < s.len() && matches_preference(
            s[i],
            preference(p).0,
            preference(p).1,
            preference(p).2,
            preference(p).3,
        ) && forall|j: int|
            0 <= j < i ==> !matches_preference(
                #[trigger] s[j],
                preference(p).0,
                preference(p).1,
                preference(p).2,
                preference(p).3,
            ),
        first_match(s, p) is None ==> forall|j: int|
            0 <= j < s.len() ==> !matches_preference(
                #[trigger] s[j],
                preference(p).0,
                preference(p).1,
                preference(p).2,
                preference(p).3,
            ),
    decreases s.len(),
{
    if s.len() > 0 {
        let t = s.drop_last();
        let n = s.len() - 1;
        let pr = preference(p);
        lemma_first_match(t, p);
        assert forall|j: int| 0 <= j < t.len() implies #[trigger] t[j] == s[j] by {}
        match first_match(t, p) {
            Some(i) => {
                assert(first_match(s, p) == Some(i));
                assert(t[i] == s[i]);
                assert forall|j: int| 0 <= j < i implies !matches_preference(#[trigger] s[j], pr.0, pr.1, pr.2, pr.3) by {
                    assert(t[j] == s[j]);
                }
            },
            None => {
                if matches_preference(s.last(), pr.0, pr.1, pr.2, pr.3) {
                    assert(first_match(s, p) == Some(n));
                    assert forall|j: int| 0 <= j < n implies !matches_preference(#[trigger] s[j], pr.0, pr.1, pr.2, pr.3) by {
                        assert(t[j] == s[j]);
                    }
                } else {
                    assert(first_match(s, p) is None);
                    assert forall|j: int| 0 <= j < s.len() implies !matches_preference(#[trigger] s[j], pr.0, pr.1, pr.2, pr.3) by {
                        if j < n {
                            assert(t[j] == s[j]);
                        }
                    }
                }
            },
        }
    }
}

/// When the modes include a 1920x1080 Motion-JPEG mode at 60 fps or more, the
/// venue mode is the first such mode.
pub proof fn law_venue_prefers_full_hd_60_mjpeg(s: Seq<VideoFormat>, k: int)
    requires
        0 <= k < s.len(),
        full_hd_at_least(s[k], 60, "MJPEG"@),
    ensures
        exists|i: int|
            #![trigger s[i]]
            0 <= i <= k && venue_pick_spec(s) == Some(s[i]) && full_hd_at_least(s[i], 60, "MJPEG"@)
                && forall|j: int| 0 <= j < i ==> !full_hd_at_least(#[trigger] s[j], 60, "MJPEG"@),
{
    lemma_first_match(s, 0);
    assert(matches_preference(s[k], 1920, 1080, 60, "MJPEG"@));
    assert(preference(0) == (1920i32, 1080i32, 60i32, "MJPEG"@));
    assert(first_match(s, 0) is Some);
    let i = first_match(s, 0)->0;
    assert forall|j: int| 0 <= j < i implies !full_hd_at_least(#[trigger] s[j], 60, "MJPEG"@) by {
        assert(!matches_preference(s[j], 1920, 1080, 60, "MJPEG"@));
    }
    assert(i <= k);
    assert(pick_by_preferences(s, 0) == Some(i));
    assert(venue_pick_spec(s) == Some(s[i]));
    assert(matches_preference(s[i], 1920, 1080, 60, "MJPEG"@));
    reveal_strlit("MJPEG");
    reveal_strlit("H264");
    reveal_strlit("auto");
    assert(full_hd_at_least(s[i], 60, "MJPEG"@));
}

/// Full HD wins whenever it is on offer: when the modes include a 1920x1080 mode
/// at 30 fps or more in Motion-JPEG or H.264, the venue mode is a 1920x1080 mode
/// at 30 fps or more.
pub proof fn law_venue_prefers_full_hd(s: Seq<VideoFormat>, k: int)
    requires
        0 <= k < s.len(),
        full_hd_at_least(s[k], 30, "MJPEG"@) || full_hd_at_least(s[k], 30, "H264"@),
    ensures
        venue_pick_spec(s) matches Some(f) && f.width == 1920 && f.height == 1080 && fps_of(f) >= 30,
{
    assert(preference(0) == (1920i32, 1080i32, 60i32, "MJPEG"@));
    assert(preference(1) == (1920i32, 1080i32, 50i32, "MJPEG"@));
    assert(preference(2) == (1920i32, 1080i32, 60i32, "H264"@));
    assert(preference(3) == (1920i32, 1080i32, 50i32, "H264"@));
    assert(preference(4) == (1920i32, 1080i32, 30i32, "MJPEG"@));
    assert(preference(5) == (1920i32, 1080i32, 30i32, "H264"@));
    lemma_first_match(s, 0);
    lemma_first_match(s, 1);
    lemma_first_match(s, 2);
    lemma_first_match(s, 3);
    lemma_first_match(s, 4);
    lemma_first_match(s, 5);
    if full_hd_at_least(s[k], 30, "MJPEG"@) {
        assert(matches_preference(s[k], 1920, 1080, 30, "MJPEG"@));
        assert(first_match(s, 4) is Some);
    } else {
        assert(matches_preference(s[k], 1920, 1080, 30, "H264"@));
        assert(first_match(s, 5) is Some);
    }
    assert(first_match(s, 5) is Some ==> pick_by_preferences(s, 5) == first_match(s, 5));
    assert(pick_by_preferences(s, 4) == (match first_match(s, 4) {
        Some(i) => Some(i),
        None => pick_by_preferences(s, 5),
    }));
    assert(pick_by_preferences(s, 3) == (match first_match(s, 3) {
        Some(i) => Some(i),
        None => pick_by_preferences(s, 4),
    }));
    assert(pick_by_preferences(s, 2) == (match first_match(s, 2) {
        Some(i) => Some(i),
        None => pick_by_preferences(s, 3),
    }));
    assert(pick_by_preferences(s, 1) == (match first_match(s, 1) {
        Some(i) => Some(i),
        None => pick_by_preferences(s, 2),
    }));
    assert(pick_by_preferences(s, 0) == (match first_match(s, 0) {
        Some(i) => Some(i),
        None => pick_by_preferences(s, 1),
    }));
}

proof fn lemma_no_full_hd_match(s: Seq<VideoFormat>, p: int)
    requires
        0 <= p <= 5,
        forall|j: int|
            0 <= j < s.len() ==> !full_hd_at_least(#[trigger] s[j], 30, "MJPEG"@) && !full_hd_at_least(
                s[j],
                30,
                "H264"@,
            ),
    ensures
        first_match(s, p) is None,
{
    reveal_strlit("MJPEG");
    reveal_strlit("H264");
    reveal_strlit("auto");
    reveal_strlit("JPEG");
    assert("MJPEG"@ != "auto"@ && "H264"@ != "auto"@ && "H264"@ != "MJPEG"@) by {
        assert("MJPEG"@.len() == 5 && "auto"@.len() == 4 && "H264"@.len() == 4);
        assert("H264"@[0] != "auto"@[0]);
    }
    lemma_first_match(s, p);
    if first_match(s, p) is Some {
        let i = first_match(s, p)->0;
        let pr = preference(p);
        assert(matches_preference(s[i], pr.0, pr.1, pr.2, pr.3));
        assert(!full_hd_at_least(s[i], 30, "MJPEG"@) && !full_hd_at_least(s[i], 30, "H264"@));
        if p == 0 || p == 1 || p == 4 {
            assert(pr.0 == 1920 && pr.1 == 1080 && pr.2 >= 30 && pr.3 == "MJPEG"@);
            assert(matches_preference(s[i], 1920, 1080, pr.2, "MJPEG"@));
            assert(seq_contains(unicode_uppercase(s[i].pixel_format@), "MJPEG"@) || seq_contains(
                unicode_uppercase(s[i].pixel_format@),
                "JPEG"@,
            ));
            assert(s[i].width == 1920 && s[i].height == 1080 && fps_of(s[i]) >= 30);
            assert(full_hd_at_least(s[i], 30, "MJPEG"@));
        } else {
            assert(pr.0 == 1920 && pr.1 == 1080 && pr.2 >= 30 && pr.3 == "H264"@);
            assert(matches_preference(s[i], 1920, 1080, pr.2, "H264"@));
            assert(seq_contains(unicode_uppercase(s[i].pixel_format@), "H264"@));
            assert(s[i].width == 1920 && s[i].height == 1080 && fps_of(s[i]) >= 30);
            assert(full_hd_at_least(s[i], 30, "H264"@));
        }
    }
}

/// Without a 1920x1080 mode at 30 fps or more in Motion-JPEG or H.264, HD wins
/// when it is on offer: if the modes include a 1280x720 mode at 30 fps or more,
/// the venue mode is a 1280x720 mode at 30 fps or more.
pub proof fn law_venue_falls_back_to_hd(s: Seq<VideoFormat>, k: int)
    requires
        forall|j: int|
            0 <= j < s.len() ==> !full_hd_at_least(#[trigger] s[j], 30, "MJPEG"@) && !full_hd_at_least(
                s[j],
                30,
                "H264"@,
            ),
        0 <= k < s.len(),
        s[k].width == 1280 && s[k].height == 720 && fps_of(s[k]) >= 30,
    ensures
        venue_pick_spec(s) matches Some(f) && f.width == 1280 && f.height == 720 && fps_of(f) >= 30,
{
    reveal_strlit("MJPEG");
    reveal_strlit("H264");
    reveal_strlit("auto");
    assert(preference(0) == (1920i32, 1080i32, 60i32, "MJPEG"@));
    assert(preference(1) == (1920i32, 1080i32, 50i32, "MJPEG"@));
    assert(preference(2) == (1920i32, 1080i32, 60i32, "H264"@));
    assert(preference(3) == (1920i32, 1080i32, 50i32, "H264"@));
    assert(preference(4) == (1920i32, 1080i32, 30i32, "MJPEG"@));
    assert(preference(5) == (1920i32, 1080i32, 30i32, "H264"@));
    assert(preference(6) == (1280i32, 720i32, 60i32, "MJPEG"@));
    assert(preference(7) == (1280i32, 720i32, 50i32, "MJPEG"@));
    assert(preference(8) == (1280i32, 720i32, 30i32, "MJPEG"@));
    assert(preference(9) == (1280i32, 720i32, 30i32, "auto"@));
    lemma_first_match(s, 0);
    lemma_first_match(s, 1);
    lemma_first_match(s, 2);
    lemma_first_match(s, 3);
    lemma_first_match(s, 4);
    lemma_first_match(s, 5);
    lemma_first_match(s, 6);
    lemma_first_match(s, 7);
    lemma_first_match(s, 8);
    lemma_first_match(s, 9);
    lemma_no_full_hd_match(s, 0);
    lemma_no_full_hd_match(s, 1);
    lemma_no_full_hd_match(s, 2);
    lemma_no_full_hd_match(s, 3);
    lemma_no_full_hd_match(s, 4);
    lemma_no_full_hd_match(s, 5);
    assert(matches_preference(s[k], 1280, 720, 30, "auto"@));
    assert(first_match(s, 9) is Some);
    assert(pick_by_preferences(s, 9) == first_match(s, 9));
    assert(pick_by_preferences(s, 8) == (match first_match(s, 8) {
        Some(i) => Some(i),
        None => pick_by_preferences(s, 9),
    }));
    assert(pick_by_preferences(s, 7) == (match first_match(s, 7) {
        Some(i) => Some(i),
        None => pick_by_preferences(s, 8),
    }));
    assert(pick_by_preferences(s, 6) == (match first_match(s, 6) {
        Some(i) => Some(i),
        None => pick_by_preferences(s, 7),
    }));
    assert(pick_by_preferences(s, 5) == pick_by_preferences(s, 6));
    assert(pick_by_preferences(s, 4) == pick_by_preferences(s, 5));
    assert(pick_by_preferences(s, 3) == pick_by_preferences(s, 4));
    assert(pick_by_preferences(s, 2) == pick_by_preferences(s, 3));
    assert(pick_by_preferences(s, 1) == pick_by_preferences(s, 2));
    assert(pick_by_preferences(s, 0) == pick_by_preferences(s, 1));
}

proof fn lemma_first_match_bounds(s: Seq<VideoFormat>, p: int)
    ensures
        first_match(s, p) matches Some(i) ==> 0 <= i < s.len(),
    decreases s.len(),
{
    if s.len() > 0 {
        lemma_first_match_bounds(s.drop_last(), p);
    }
}

proof fn lemma_last_max_bounds(s: Seq<VideoFormat>)
    requires
        s.len() > 0,
    ensures
        0 <= last_max_score_index(s) < s.len(),
    decreases s.len(),
{
    if s.len() > 1 {
        lemma_last_max_bounds(s.drop_last());
    }
}

fn first_match_exec(formats: &Vec<VideoFormat>, p: usize) -> (r: Option<usize>)
    requires
        p < 11,
    ensures
        match r {
            Some(i) => first_match(formats@, p as int) == Some(i as int) && i < formats.len(),
            None => first_match(formats@, p as int) is None,
        },
{
    let (w, h, fps, pf) = preference_at(p);
    let mut i: usize = 0;
    while i < formats.len()
        invariant
            i <= formats.len(),
            p < 11,
            w == preference(p as int).0,
            h == preference(p as int).1,
            fps == preference(p as int).2,
            pf@ == preference(p as int).3,
            first_match(formats@.take(i as int), p as int) is None,
        decreases formats.len() - i,
    {
        proof {
            assert(formats@.take(i + 1).drop_last() =~= formats@.take(i as int));
        }
        if format_matches_preference(&formats[i], w, h, fps, pf) {
            proof {
                lemma_first_match_prefix(formats@, p as int, i as int);
            }
            return Some(i);
        }
        i = i + 1;
    }
    assert(formats@.take(i as int) =~= formats@);
    None
}

proof fn lemma_first_match_prefix(s: Seq<VideoFormat>, p: int, i: int)
    requires
        0 <= i < s.len(),
        first_match(s.take(i + 1), p) == Some(i),
    ensures
        first_match(s, p) == Some(i),
    decreases s.len(),
{
    if s.len() > i + 1 {
        assert(s.drop_last().take(i + 1) =~= s.take(i + 1));
        lemma_first_match_prefix(s.drop_last(), p, i);
    } else {
        assert(s.take(i + 1) =~= s);
    }
}

fn last_max_score_exec(formats: &Vec<VideoFormat>) -> (r: usize)
    requires
        formats.len() > 0,
        all_scores_fit(formats@),
    ensures
        r == last_max_score_index(formats@),
        r < formats.len(),
{
    let mut best: usize = 0;
    let mut best_score = format_score(&formats[0]);
    let mut i: usize = 1;
    assert(formats@.take(1).len() == 1);
    while i < formats.len()
        invariant
            1 <= i <= formats.len(),
            all_scores_fit(formats@),
            best < i,
            best == last_max_score_index(formats@.take(i as int)),
            best_score == score_spec(formats@[best as int]),
        decreases formats.len() - i,
    {
        let s = format_score(&formats[i]);
        proof {
            assert(formats@.take(i + 1).drop_last() =~= formats@.take(i as int));
            assert(formats@.take(i as int)[best as int] == formats@[best as int]);
        }
        if s >= best_score {
            best = i;
            best_score = s;
        }
        i = i + 1;
    }
    assert(formats@.take(i as int) =~= formats@);
    best
}

/// Picks the venue capture mode from a device's modes.
pub fn pick_venue_format(formats: &Vec<VideoFormat>) -> (r: Option<VideoFormat>)
    requires
        all_scores_fit(formats@),
    ensures
        r == venue_pick_spec(formats@),
{
    if formats.len() == 0 {
        return None;
    }
    let mut p: usize = 0;
    while p < 11
        invariant
            p <= 11,
            formats.len() > 0,
            pick_by_preferences(formats@, 0) == pick_by_preferences(formats@, p as int),
        decreases 11 - p,
    {
        match first_match_exec(formats, p) {
            Some(i) => {
                return Some(formats[i].clone());
            },
            None => {},
        }
        p = p + 1;
    }
    let i = last_max_score_exec(formats);
    Some(formats[i].clone())
}

/// The highest score among `s` (0 for no modes).
pub open spec fn max_score(s: Seq<VideoFormat>) -> int
    decreases s.len(),
{
    if s.len() == 0 {
        0
    } else {
        let m = max_score(s.drop_last());
        if score_spec(s.last()) > m {
            score_spec(s.last())
        } else {
            m
        }
    }
}

/// Highest score among the modes (0 for none).
pub fn best_format_score(formats: &Vec<VideoFormat>) -> (r: u64)
    requires
        all_scores_fit(formats@),
    ensures
        r == max_score(formats@),
{
    let mut best: u64 = 0;
    let mut i: usize = 0;
    while i < formats.len()
        invariant
            i <= formats.len(),
            all_scores_fit(formats@),
            best == max_score(formats@.take(i as int)),
        decreases formats.len() - i,
    {
        proof {
            assert(formats@.take(i + 1).drop_last() =~= formats@.take(i as int));
        }
        let s = format_score(&formats[i]);
        if s > best {
            best = s;
        }
        i = i + 1;
    }
    assert(formats@.take(i as int) =~= formats@);
    best
}

/// Among candidates with at least one mode, the index of the first one with the
/// highest best-mode score.
pub open spec fn best_candidate<T>(s: Seq<(T, Vec<VideoFormat>)>) -> Option<int>
    decreases s.len(),
{
    if s.len() == 0 {
        None
    } else {
        let b = best_candidate(s.drop_last());
        let x = s.last();
        if x.1@.len() == 0 {
            b
        } else {
            match b {
                None => Some(s.len() - 1),
                Some(i) => if max_score(s[i].1@) < max_score(x.1@) {
                    Some(s.len() - 1)
                } else {
                    Some(i)
                },
            }
        }
    }
}

/// Every candidate's modes have scores that fit in `u64`.
pub open spec fn candidates_fit<T>(s: Seq<(T, Vec<VideoFormat>)>) -> bool {
    forall|i: int| 0 <= i < s.len() ==> all_scores_fit(#[trigger] s[i].1@)
}

proof fn lemma_best_candidate_bounds<T>(s: Seq<(T, Vec<VideoFormat>)>)
    ensures
        best_candidate(s) matches Some(i) ==> 0 <= i < s.len() && s[i].1@.len() > 0,
    decreases s.len(),
{
    if s.len() > 0 {
        lemma_best_candidate_bounds(s.drop_last());
    }
}

fn best_candidate_exec<T>(cands: &Vec<(T, Vec<VideoFormat>)>) -> (r: Option<usize>)
    requires
        candidates_fit(cands@),
    ensures
        match r {
            Some(i) => best_candidate(cands@) == Some(i as int) && i < cands.len(),
            None => best_candidate(cands@) is None,
        },
{
    let mut best: Option<usize> = None;
    let mut best_score: u64 = 0;
    let mut i: usize = 0;
    while i < cands.len()
        invariant
            i <= cands.len(),
            candidates_fit(cands@),
            match best {
                Some(b) => best_candidate(cands@.take(i as int)) == Some(b as int) && b < i
                    && best_score == max_score(cands@[b as int].1@),
                None => best_candidate(cands@.take(i as int)) is None,
            },
        decreases cands.len() - i,
    {
        proof {
            assert(cands@.take(i + 1).drop_last() =~= cands@.take(i as int));
            if let Some(b) = best {
                assert(cands@.take(i as int)[b as int] == cands@[b as int]);
            }
        }
        let formats = &cands[i].1;
        if formats.len() > 0 {
            assert(all_scores_fit(cands@[i as int].1@));
            let score = best_format_score(formats);
            match best {
                None => {
                    best = Some(i);
                    best_score = score;
                },
                Some(_) => {
                    if best_score < score {
                        best = Some(i);
                        best_score = score;
                    }
                },
            }
        }
        i = i + 1;
    }
    assert(cands@.take(i as int) =~= cands@);
    best
}

/// Picks the capture device whose best usable mode scores highest (the first such
/// device on ties); devices without usable modes are skipped.
pub fn auto_pick_device(candidates: Vec<(CaptureDevice, Vec<VideoFormat>)>) -> (r: Option<
    (CaptureDevice, Vec<VideoFormat>),
>)
    requires
        candidates_fit(candidates@),
    ensures
        match best_candidate(candidates@) {
            Some(i) => r == Some(candidates@[i]),
            None => r is None,
        },
{
    let mut candidates = candidates;
    match best_candidate_exec(&candidates) {
        Some(i) => Some(candidates.swap_remove(i)),
        None => None,
    }
}

/// Picks, among the video nodes whose card name is `card`, the one whose best
/// usable mode scores highest (the first on ties); nodes without usable modes are
/// skipped. Each node is its device path, its card name and its usable modes.
pub fn best_node_for_card(card: &str, nodes: Vec<(String, String, Vec<VideoFormat>)>) -> (r: Option<
    (String, Vec<VideoFormat>),
>)
    requires
        forall|i: int| 0 <= i < nodes@.len() ==> all_scores_fit(#[trigger] nodes@[i].2@),
    ensures
        match best_candidate(same_card_nodes(nodes@, card@)) {
            Some(i) => r == Some(same_card_nodes(nodes@, card@)[i]),
            None => r is None,
        },
{
    let ghost orig = nodes@;
    let card_chars = str_chars(card);
    let mut cands: Vec<(String, Vec<VideoFormat>)> = Vec::new();
    for node in it: nodes.into_iter()
        invariant
            it.seq() == orig,
            card_chars@ == card@,
            cands@ == same_card_nodes(orig.take(it.index() as int), card@),
            forall|j: int| 0 <= j < orig.len() ==> all_scores_fit(#[trigger] orig[j].2@),
    {
        proof {
            assert(orig.take(it.index() + 1).drop_last() =~= orig.take(it.index() as int));
        }
        let (path, name, formats) = node;
        let name_chars = str_chars(name.as_str());
        if chars_eq(&name_chars, &card_chars) {
            cands.push((path, formats));
        }
    }
    assert(orig.take(orig.len() as int) =~= orig);
    proof {
        lemma_same_card_fit(orig, card@);
    }
    match best_candidate_exec(&cands) {
        Some(i) => Some(cands.swap_remove(i)),
        None => None,
    }
}

proof fn lemma_same_card_fit(nodes: Seq<(String, String, Vec<VideoFormat>)>, card: Seq<char>)
    requires
        forall|j: int| 0 <= j < nodes.len() ==> all_scores_fit(#[trigger] nodes[j].2@),
    ensures
        candidates_fit(same_card_nodes(nodes, card)),
    decreases nodes.len(),
{
    if nodes.len() > 0 {
        assert forall|j: int| 0 <= j < nodes.drop_last().len() implies all_scores_fit(
            #[trigger] nodes.drop_last()[j].2@,
        ) by {
            assert(nodes.drop_last()[j] == nodes[j]);
        }
        lemma_same_card_fit(nodes.drop_last(), card);
        assert(all_scores_fit(nodes[nodes.len() - 1].2@));
    }
}

/// The nodes whose card name is `card`, as (path, modes) candidates, in order.
pub open spec fn same_card_nodes(nodes: Seq<(String, String, Vec<VideoFormat>)>, card: Seq<char>) -> Seq<
    (String, Vec<VideoFormat>),
>
    decreases nodes.len(),
{
    if nodes.len() == 0 {
        Seq::empty()
    } else {
        let rest = same_card_nodes(nodes.drop_last(), card);
        if nodes.last().1@ == card {
            rest.push((nodes.last().0, nodes.last().2))
        } else {
            rest
        }
    }
}

/// The configured device id asks for automatic selection (empty, `auto` or
/// `default`, after trimming and lower-casing).
pub open spec fn wants_auto_device_spec(device_id: Seq<char>) -> bool {
    let d = unicode_lowercase(trim(device_id));
    d.len() == 0 || d == "auto"@ || d == "default"@
}

pub fn wants_auto_device(device_id: &str) -> (r: bool)
    ensures
        r == wants_auto_device_spec(device_id@),
{
    let v = str_chars(device_id);
    let t = trim_chars(&v);
    let d = to_lowercase_chars(&t);
    d.len() == 0 || chars_eq_str(&d, "auto") || chars_eq_str(&d, "default")
}

/// The configured resolution asks for automatic selection (`auto`, any case).
pub open spec fn wants_auto_resolution_spec(resolution: Seq<char>) -> bool {
    eq_ignore_ascii_case(trim(resolution), "auto"@)
}

pub fn wants_auto_resolution(resolution: &str) -> (r: bool)
    ensures
        r == wants_auto_resolution_spec(resolution@),
{
    let v = str_chars(resolution);
    let t = trim_chars(&v);
    chars_eq_ignore_ascii_case(&t, "auto")
}

/// Splits `WxH` into width and height.
pub fn parse_resolution_pair(resolution: &str) -> (r: Option<(u32, u32)>)
    ensures
        r == resolution_pair_spec(resolution@),
{
    let v = str_chars(resolution);
    parse_resolution_pair_chars(&v)
}

/// The canonical form of a configured device id: bare `/dev/video*` nodes get the
/// `v4l2:` prefix; everything else is kept.
pub open spec fn normalized_device_id(device_id: Seq<char>) -> Seq<char> {
    if seq_starts_with(device_id, "v4l2:"@) || device_id == "test"@ {
        device_id
    } else if seq_starts_with(device_id, "/dev/video"@) {
        "v4l2:"@ + device_id
    } else {
        device_id
    }
}

pub fn normalize_device_id(device_id: &str) -> (r: String)
    ensures
        r@ == normalized_device_id(device_id@),
{
    let v = str_chars(device_id);
    if chars_start_with_str(&v, "v4l2:") || chars_eq_str(&v, "test") {
        string_from_chars(&v)
    } else if chars_start_with_str(&v, "/dev/video") {
        let mut out = str_chars("v4l2:");
        push_chars(&mut out, &v);
        string_from_chars(&out)
    } else {
        string_from_chars(&v)
    }
}

/// The venue mode of `formats`, or 1280x720 at 30 fps MJPEG when there are none,
/// as (width, height, fps numerator, fps denominator, pixel format).
pub open spec fn venue_or_default(formats: Seq<VideoFormat>) -> (i32, i32, i32, i32, Seq<char>) {
    match venue_pick_spec(formats) {
        Some(v) => (v.width, v.height, v.fps_num, v.fps_den, v.pixel_format@),
        None => (1280, 720, 30, 1, "MJPEG"@),
    }
}

/// The capture parameters chosen for `device_id`: every `auto` (or zero fps)
/// setting is taken from the venue mode; an explicit `WxH` that does not parse
/// falls back to the venue size; a pixel format of `auto` becomes the venue's.
pub open spec fn resolved_spec(
    device_id: Seq<char>,
    input: InputConfig,
    formats: Seq<VideoFormat>,
    r: ResolvedInput,
) -> bool {
    let venue = venue_or_default(formats);
    let venue_size = (venue.0 as u32, venue.1 as u32);
    let auto_res = wants_auto_resolution_spec(input.resolution@);
    let auto_pf = eq_ignore_ascii_case(input.pixel_format@, "auto"@);
    let explicit_size = match resolution_pair_spec(input.resolution@) {
        Some(p) => p,
        None => venue_size,
    };
    let (w, h) = if auto_res {
        venue_size
    } else {
        explicit_size
    };
    let fps: u32 = if input.fps == 0 {
        trunc_div(venue.2 as int, if venue.3 > 1 { venue.3 as int } else { 1 }) as u32
    } else {
        input.fps
    };
    let pf = if auto_pf {
        venue.4
    } else {
        input.pixel_format@
    };
    let pf = if eq_ignore_ascii_case(pf, "auto"@) {
        venue.4
    } else {
        pf
    };
    &&& r.device_id@ == device_id
    &&& r.width == w
    &&& r.height == h
    &&& r.fps == fps
    &&& r.pixel_format@ == pf
}

/// Chooses the capture parameters for `device_id` from the configuration and the
/// device's usable modes.
pub fn build_resolved(device_id: &str, input: &InputConfig, formats: &Vec<VideoFormat>) -> (r: ResolvedInput)
    requires
        all_scores_fit(formats@),
    ensures
        resolved_spec(device_id@, *input, formats@, r),
{
    let venue = match pick_venue_format(formats) {
        Some(v) => v,
        None => VideoFormat {
            width: 1280,
            height: 720,
            fps_num: 30,
            fps_den: 1,
            pixel_format: String::from_str("MJPEG"),
        },
    };
    let auto_res = wants_auto_resolution(input.resolution.as_str());
    let pfv = str_chars(input.pixel_format.as_str());
    let auto_pf = chars_eq_ignore_ascii_case(&pfv, "auto");
    let res_chars = str_chars(input.resolution.as_str());
    let venue_size = (venue.width as u32, venue.height as u32);
    let (width, height, fps, pixel_format) = if auto_res || input.fps == 0 || auto_pf {
        let fps = if input.fps == 0 {
            let den = if venue.fps_den > 1 {
                venue.fps_den
            } else {
                1
            };
            (venue.fps_num / den) as u32
        } else {
            input.fps
        };
        let pf = if auto_pf {
            venue.pixel_format.clone()
        } else {
            input.pixel_format.clone()
        };
        let (w, h) = if auto_res {
            venue_size
        } else {
            match parse_resolution_pair_chars(&res_chars) {
                Some(p) => p,
                None => venue_size,
            }
        };
        (w, h, fps, pf)
    } else {
        let (w, h) = match parse_resolution_pair_chars(&res_chars) {
            Some(p) => p,
            None => venue_size,
        };
        (w, h, input.fps, input.pixel_format.clone())
    };
    let final_pf = str_chars(pixel_format.as_str());
    let pixel_format = if chars_eq_ignore_ascii_case(&final_pf, "auto") {
        venue.pixel_format
    } else {
        pixel_format
    };
    ResolvedInput { device_id: String::from_str(device_id), width, height, fps, pixel_format }
}

/// The outcome of automatic selection given the best device, if any: a device
/// whose id names no concrete source counts as none.
pub open spec fn resolve_auto_spec(
    input: InputConfig,
    auto_pick: Option<(CaptureDevice, Vec<VideoFormat>)>,
    r: Result<ResolvedInput, CaptureSelectError>,
) -> bool {
    match auto_pick {
        Some((dev, formats)) if device_id_is_concrete(dev.id@) => r matches Ok(ri) && resolved_spec(
            dev.id@,
            input,
            formats@,
            ri,
        ),
        _ => r == Err::<ResolvedInput, CaptureSelectError>(CaptureSelectError::NoCaptureDevice),
    }
}

/// Resolves the input on the best automatically detected device.
pub fn resolve_auto(input: &InputConfig, auto_pick: Option<(CaptureDevice, Vec<VideoFormat>)>) -> (r: Result<
    ResolvedInput,
    CaptureSelectError,
>)
    requires
        auto_pick matches Some(p) ==> all_scores_fit(p.1@),
    ensures
        resolve_auto_spec(*input, auto_pick, r),
{
    match auto_pick {
        None => Err(CaptureSelectError::NoCaptureDevice),
        Some((dev, formats)) => {
            if device_id_concrete(dev.id.as_str()) {
                Ok(build_resolved(dev.id.as_str(), input, &formats))
            } else {
                Err(CaptureSelectError::NoCaptureDevice)
            }
        },
    }
}

/// The configured device is used as it stands: automatic selection is not asked
/// for, it has usable modes, and its normalized id names a concrete source.
pub open spec fn uses_configured_device(input: InputConfig, configured_formats: Seq<VideoFormat>) -> bool {
    &&& !wants_auto_device_spec(input.device_id@)
    &&& configured_formats.len() > 0
    &&& device_id_is_concrete(normalized_device_id(input.device_id@))
}

/// Resolves the capture parameters, ready for starting live capture: the result
/// names the test pattern or a V4L2 node. `configured_formats` are the usable
/// modes of the configured device (its id normalized); `auto_pick` is the best
/// detected device with its usable modes. Automatic selection is used when the
/// configuration asks for it, when the configured device has no usable mode, or
/// when its id names no concrete source.
pub fn resolve_input(
    input: &InputConfig,
    configured_formats: &Vec<VideoFormat>,
    auto_pick: Option<(CaptureDevice, Vec<VideoFormat>)>,
) -> (r: Result<ResolvedInput, CaptureSelectError>)
    requires
        all_scores_fit(configured_formats@),
        auto_pick matches Some(p) ==> all_scores_fit(p.1@),
    ensures
        !uses_configured_device(*input, configured_formats@) ==> resolve_auto_spec(*input, auto_pick, r),
        uses_configured_device(*input, configured_formats@) ==> (r matches Ok(ri) && resolved_spec(
            normalized_device_id(input.device_id@),
            *input,
            configured_formats@,
            ri,
        )),
        r matches Ok(ri) ==> device_id_is_concrete(ri.device_id@),
{
    if wants_auto_device(input.device_id.as_str()) {
        return resolve_auto(input, auto_pick);
    }
    let id = normalize_device_id(input.device_id.as_str());
    if configured_formats.len() == 0 || !device_id_concrete(id.as_str()) {
        return resolve_auto(input, auto_pick);
    }
    Ok(build_resolved(id.as_str(), input, configured_formats))
}

/// Pixel area of a display.
pub open spec fn display_area(d: DisplayInfo) -> int {
    (d.width as i64) * (d.height as i64)
}

/// Index of the largest display other than the operator's (the last one among
/// equals, as `max_by_key` picks).
pub open spec fn largest_other_display(s: Seq<DisplayInfo>, operator_id: u32) -> Option<int>
    decreases s.len(),
{
    if s.len() == 0 {
        None
    } else {
        let b = largest_other_display(s.drop_last(), operator_id);
        if s.last().id == operator_id {
            b
        } else {
            match b {
                None => Some(s.len() - 1),
                Some(i) => if display_area(s.last()) >= display_area(s[i]) {
                    Some(s.len() - 1)
                } else {
                    Some(i)
                },
            }
        }
    }
}

proof fn lemma_largest_bounds(s: Seq<DisplayInfo>, operator_id: u32)
    ensures
        largest_other_display(s, operator_id) matches Some(i) ==> 0 <= i < s.len(),
    decreases s.len(),
{
    if s.len() > 0 {
        lemma_largest_bounds(s.drop_last(), operator_id);
    }
}

/// Pixel count of a display, from its size.
pub open spec fn pixel_count(d: DisplayInfo) -> int {
    (d.width as int) * (d.height as int)
}

proof fn lemma_largest_other(s: Seq<DisplayInfo>, op: u32)
    ensures
        largest_other_display(s, op) matches Some(i) ==> {
            &&& 0 <= i < s.len()
            &&& s[i].id != op
            &&& forall|j: int| 0 <= j < s.len() && (#[trigger] s[j]).id != op ==> pixel_count(s[j]) <= pixel_count(s[i])
            &&& forall|j: int| i < j < s.len() && (#[trigger] s[j]).id != op ==> pixel_count(s[j]) < pixel_count(s[i])
        },
        largest_other_display(s, op) is None ==> forall|j: int| 0 <= j < s.len() ==> (#[trigger] s[j]).id == op,
    decreases s.len(),
{
    if s.len() > 0 {
        let t = s.drop_last();
        let n = s.len() - 1;
        lemma_largest_other(t, op);
        assert forall|j: int| 0 <= j < t.len() implies #[trigger] t[j] == s[j] by {}
        assert forall|j: int| 0 <= j < s.len() implies display_area(#[trigger] s[j]) == pixel_count(s[j]) by {}
        let b = largest_other_display(t, op);
        if s.last().id == op {
            assert(largest_other_display(s, op) == b);
            if let Some(i) = b {
                assert forall|j: int| 0 <= j < s.len() && (#[trigger] s[j]).id != op implies pixel_count(s[j])
                    <= pixel_count(s[i]) by {
                    if j < n {
                        assert(t[j] == s[j]);
                    }
                }
                assert forall|j: int| i < j < s.len() && (#[trigger] s[j]).id != op implies pixel_count(s[j])
                    < pixel_count(s[i]) by {
                    if j < n {
                        assert(t[j] == s[j]);
                    }
                }
            } else {
                assert forall|j: int| 0 <= j < s.len() implies (#[trigger] s[j]).id == op by {
                    if j < n {
                        assert(t[j] == s[j]);
                    }
                }
            }
        } else {
            match b {
                None => {
                    assert(largest_other_display(s, op) == Some(n));
                    assert forall|j: int| 0 <= j < s.len() && (#[trigger] s[j]).id != op implies pixel_count(s[j])
                        <= pixel_count(s[n]) by {
                        if j < n {
                            assert(t[j] == s[j]);
                        }
                    }
                },
                Some(i) => {
                    if display_area(s.last()) >= display_area(s[i]) {
                        assert(largest_other_display(s, op) == Some(n));
                        assert forall|j: int| 0 <= j < s.len() && (#[trigger] s[j]).id != op implies pixel_count(
                            s[j],
                        ) <= pixel_count(s[n]) by {
                            if j < n {
                                assert(t[j] == s[j]);
                            }
                        }
                    } else {
                        assert(largest_other_display(s, op) == Some(i));
                        assert forall|j: int| 0 <= j < s.len() && (#[trigger] s[j]).id != op implies pixel_count(
                            s[j],
                        ) <= pixel_count(s[i]) by {
                            if j < n {
                                assert(t[j] == s[j]);
                            }
                        }
                        assert forall|j: int| i < j < s.len() && (#[trigger] s[j]).id != op implies pixel_count(
                            s[j],
                        ) < pixel_count(s[i]) by {
                            if j < n {
                                assert(t[j] == s[j]);
                            }
                        }
                    }
                },
            }
        }
    }
}

/// With automatic selection and several displays, the audience display is never
/// the operator's when another display exists: it is a display other than the
/// operator's with the most pixels (the last such one among equals).
pub proof fn law_output_display_avoids_operator(auto_display: bool, operator_id: u32, displays: Seq<DisplayInfo>)
    requires
        auto_display,
        displays.len() > 1,
        exists|j: int| 0 <= j < displays.len() && (#[trigger] displays[j]).id != operator_id,
    ensures
        output_display_spec(auto_display, operator_id, displays) != operator_id,
        exists|i: int|
            #![trigger displays[i]]
            0 <= i < displays.len() && displays[i].id == output_display_spec(auto_display, operator_id, displays)
                && (forall|j: int| 0 <= j < displays.len() && (#[trigger] displays[j]).id != operator_id
                ==> pixel_count(displays[j]) <= pixel_count(displays[i])) && (forall|j: int|
                i < j < displays.len() && (#[trigger] displays[j]).id != operator_id ==> pixel_count(
                displays[j],
            ) < pixel_count(displays[i])),
{
    lemma_largest_other(displays, operator_id);
    let j = choose|j: int| 0 <= j < displays.len() && (#[trigger] displays[j]).id != operator_id;
    let i = largest_other_display(displays, operator_id)->0;
    assert(displays[i].id == output_display_spec(auto_display, operator_id, displays));
}

/// Without automatic selection, or with at most one display, the audience display
/// is the first display (the operator's id when none is listed).
pub proof fn law_output_display_first_otherwise(auto_display: bool, operator_id: u32, displays: Seq<DisplayInfo>)
    requires
        !auto_display || displays.len() <= 1,
    ensures
        displays.len() > 0 ==> output_display_spec(auto_display, operator_id, displays) == displays[0].id,
        displays.len() == 0 ==> output_display_spec(auto_display, operator_id, displays) == operator_id,
{
}

/// The audience display: with automatic selection and several displays, the
/// largest display that is not the operator's; otherwise the first display (or
/// the operator's id when none is known).
pub open spec fn output_display_spec(auto_display: bool, operator_id: u32, displays: Seq<DisplayInfo>) -> u32 {
    if !auto_display || displays.len() <= 1 {
        if displays.len() > 0 {
            displays[0].id
        } else {
            operator_id
        }
    } else {
        match largest_other_display(displays, operator_id) {
            Some(i) => displays[i].id,
            None => operator_id,
        }
    }
}

pub fn resolve_output_display(auto_display: bool, operator_display_id: u32, displays: &Vec<DisplayInfo>) -> (r: u32)
    ensures
        r == output_display_spec(auto_display, operator_display_id, displays@),
{
    if !auto_display || displays.len() <= 1 {
        if displays.len() > 0 {
            return displays[0].id;
        } else {
            return operator_display_id;
        }
    }
    let mut best: Option<usize> = None;
    let mut best_area: i64 = 0;
    let mut i: usize = 0;
    while i < displays.len()
        invariant
            i <= displays.len(),
            match best {
                Some(b) => largest_other_display(displays@.take(i as int), operator_display_id) == Some(
                    b as int,
                ) && b < i && best_area == display_area(displays@[b as int]),
                None => largest_other_display(displays@.take(i as int), operator_display_id) is None,
            },
        decreases displays.len() - i,
    {
        proof {
            assert(displays@.take(i + 1).drop_last() =~= displays@.take(i as int));
            if let Some(b) = best {
                assert(displays@.take(i as int)[b as int] == displays@[b as int]);
            }
        }
        let d = &displays[i];
        if d.id != operator_display_id {
            let w = d.width as i64;
            let h = d.height as i64;
            assert(-2147483648 <= w <= 2147483647);
            assert(-2147483648 <= h <= 2147483647);
            assert(-4611686016279904256 <= w * h <= 4611686018427387904) by (nonlinear_arith)
                requires
                    -2147483648 <= w <= 2147483647,
                    -2147483648 <= h <= 2147483647,
            ;
            let area = w * h;
            match best {
                None => {
                    best = Some(i);
                    best_area = area;
                },
                Some(_) => {
                    if area >= best_area {
                        best = Some(i);
                        best_area = area;
                    }
                },
            }
        }
        i = i + 1;
    }
    assert(displays@.take(i as int) =~= displays@);
    match best {
        Some(b) => displays[b].id,
        None => operator_display_id,
    }
}

// ---------------------------------------------------------------------------
// Device discovery
// ---------------------------------------------------------------------------

/// The nodes that can serve as capture devices: their card name is known, is not
/// one of the Pi's platform nodes, and they have usable modes. Each node is its
/// device path, its card name (when readable) and its usable modes.
pub open spec fn eligible_nodes(nodes: Seq<(String, Option<String>, Vec<VideoFormat>)>) -> Seq<
    (String, String, Vec<VideoFormat>),
>
    decreases nodes.len(),
{
    if nodes.len() == 0 {
        Seq::empty()
    } else {
        let rest = eligible_nodes(nodes.drop_last());
        let (path, card, formats) = nodes.last();
        match card {
            Some(c) => if !is_internal_platform_name(unicode_lowercase(c@)) && formats@.len() > 0 {
                rest.push((path, c, formats))
            } else {
                rest
            },
            None => rest,
        }
    }
}

/// The texts of `s` without repeats, first occurrences kept.
pub open spec fn distinct_texts(s: Seq<Seq<char>>) -> Seq<Seq<char>>
    decreases s.len(),
{
    if s.len() == 0 {
        Seq::empty()
    } else if s.drop_last().contains(s.last()) {
        distinct_texts(s.drop_last())
    } else {
        distinct_texts(s.drop_last()).push(s.last())
    }
}

/// The card names of eligible nodes, each once, in ascending order.
pub open spec fn discovered_cards(nodes: Seq<(String, Option<String>, Vec<VideoFormat>)>) -> Seq<Seq<char>> {
    sort_texts(distinct_texts(eligible_nodes(nodes).map_values(|n: (String, String, Vec<VideoFormat>)| n.1@)))
}

/// The device discovered for card `c`: id `v4l2:` plus the path of its best node
/// (the first with the highest-scoring usable mode), named after the card.
pub open spec fn discovered_device(
    nodes: Seq<(String, Option<String>, Vec<VideoFormat>)>,
    c: Seq<char>,
    d: CaptureDevice,
) -> bool {
    let cands = same_card_nodes(eligible_nodes(nodes), c);
    &&& best_candidate(cands) matches Some(i) && d.id@ == "v4l2:"@ + cands[i].0@
    &&& d.display_name@ == c
    &&& d.backend@ == "v4l2"@
}

proof fn lemma_best_candidate_views<T, U>(a: Seq<(T, Vec<VideoFormat>)>, b: Seq<(U, Vec<VideoFormat>)>)
    requires
        a.len() == b.len(),
        forall|j: int| 0 <= j < a.len() ==> (#[trigger] a[j]).1@ == b[j].1@,
    ensures
        best_candidate(a) == best_candidate(b),
    decreases a.len(),
{
    if a.len() > 0 {
        assert forall|j: int| 0 <= j < a.drop_last().len() implies (#[trigger] a.drop_last()[j]).1@
            == b.drop_last()[j].1@ by {
            assert(a.drop_last()[j] == a[j] && b.drop_last()[j] == b[j]);
        }
        lemma_best_candidate_views(a.drop_last(), b.drop_last());
        assert(a.last().1@ == b.last().1@);
        if let Some(i) = best_candidate(a.drop_last()) {
            lemma_best_candidate_bounds(a.drop_last());
            assert(a[i].1@ == b[i].1@);
        }
    }
}

proof fn lemma_best_candidate_some<T>(s: Seq<(T, Vec<VideoFormat>)>, j: int)
    requires
        0 <= j < s.len(),
        s[j].1@.len() > 0,
    ensures
        best_candidate(s) is Some,
    decreases s.len(),
{
    if j < s.len() - 1 {
        assert(s.drop_last()[j] == s[j]);
        lemma_best_candidate_some(s.drop_last(), j);
    }
}

fn clone_formats(v: &Vec<VideoFormat>) -> (r: Vec<VideoFormat>)
    ensures
        r@ == v@,
{
    let mut out: Vec<VideoFormat> = Vec::new();
    let mut i: usize = 0;
    while i < v.len()
        invariant
            i <= v@.len(),
            out@ == v@.take(i as int),
        decreases v@.len() - i,
    {
        out.push(v[i].clone());
        proof {
            assert(v@.take(i + 1) =~= v@.take(i as int).push(v@[i as int]));
        }
        i = i + 1;
    }
    assert(v@.take(v@.len() as int) =~= v@);
    out
}

fn text_listed(list: &Vec<String>, t: &Vec<char>) -> (r: bool)
    ensures
        r == texts_of(list@).contains(t@),
{
    let mut i: usize = 0;
    while i < list.len()
        invariant
            i <= list@.len(),
            forall|k: int| 0 <= k < i ==> (#[trigger] list@[k])@ != t@,
        decreases list@.len() - i,
    {
        let v = str_chars(list[i].as_str());
        if chars_eq(&v, t) {
            assert(texts_of(list@)[i as int] == t@);
            return true;
        }
        i = i + 1;
    }
    proof {
        if texts_of(list@).contains(t@) {
            let k = choose|k: int| 0 <= k < texts_of(list@).len() && texts_of(list@)[k] == t@;
            assert(list@[k]@ == t@);
        }
    }
    false
}

/// Groups the video nodes by card name and picks, for each card, the node whose
/// usable modes score best; the devices come in ascending card-name order. Each
/// node is its device path, its card name (when readable) and its usable modes.
pub fn discover_capture_devices(nodes: Vec<(String, Option<String>, Vec<VideoFormat>)>) -> (r: Vec<CaptureDevice>)
    requires
        forall|i: int| 0 <= i < nodes@.len() ==> all_scores_fit(#[trigger] nodes@[i].2@),
    ensures
        r@.len() == discovered_cards(nodes@).len(),
        forall|k: int| 0 <= k < r@.len() ==> discovered_device(nodes@, discovered_cards(nodes@)[k], #[trigger] r@[k]),
{
    let ghost orig = nodes@;
    let mut eligible: Vec<(String, String, Vec<VideoFormat>)> = Vec::new();
    let mut names: Vec<String> = Vec::new();
    for node in it: nodes.into_iter()
        invariant
            it.seq() == orig,
            eligible@ == eligible_nodes(orig.take(it.index() as int)),
            texts_of(names@) == distinct_texts(
                eligible@.map_values(|n: (String, String, Vec<VideoFormat>)| n.1@),
            ),
            forall|i: int| 0 <= i < orig.len() ==> all_scores_fit(#[trigger] orig[i].2@),
            forall|i: int| 0 <= i < eligible@.len() ==> all_scores_fit(#[trigger] eligible@[i].2@),
    {
        proof {
            assert(orig.take(it.index() + 1).drop_last() =~= orig.take(it.index() as int));
            assert(orig.take(it.index() + 1).last() == node);
            assert(all_scores_fit(orig[it.index() as int].2@));
        }
        let ghost node_formats = node.2@;
        let ghost top = eligible@;
        assert(all_scores_fit(node_formats));
        let (path, card, formats) = node;
        match card {
            Some(c) => {
                if !is_internal_platform_device(c.as_str()) && formats.len() > 0 {
                    let ghost before = eligible@;
                    let cv = str_chars(c.as_str());
                    let seen = text_listed(&names, &cv);
                    proof {
                        let f = |n: (String, String, Vec<VideoFormat>)| n.1@;
                        lemma_distinct_keeps(before.map_values(f), cv@);
                        lemma_distinct_contains(before.map_values(f), cv@);
                        assert(seen == before.map_values(f).contains(cv@));
                    }
                    let ghost names_before = names@;
                    if !seen {
                        names.push(c.clone());
                    }
                    eligible.push((path, c, formats));
                    proof {
                        let f = |n: (String, String, Vec<VideoFormat>)| n.1@;
                        assert(eligible@.map_values(f) =~= before.map_values(f).push(cv@));
                        assert(before.map_values(f).push(cv@).drop_last() =~= before.map_values(f));
                        if !seen {
                            assert(texts_of(names@) =~= texts_of(names_before).push(cv@));
                        }
                    }
                }
            },
            None => {},
        }
        proof {
            assert forall|i: int| 0 <= i < eligible@.len() implies all_scores_fit(#[trigger] eligible@[i].2@) by {
                if i < top.len() {
                    assert(eligible@[i] == top[i]);
                    assert(all_scores_fit(top[i].2@));
                } else {
                    assert(eligible@[i].2@ == node_formats);
                }
            }
        }
    }
    assert(orig.take(orig.len() as int) =~= orig);
    let cards = sort_strings(names);
    let mut out: Vec<CaptureDevice> = Vec::new();
    let mut k: usize = 0;
    while k < cards.len()
        invariant
            k <= cards@.len(),
            eligible@ == eligible_nodes(orig),
            texts_of(cards@) == discovered_cards(orig),
            forall|i: int| 0 <= i < eligible@.len() ==> all_scores_fit(#[trigger] eligible@[i].2@),
            out@.len() == k,
            forall|j: int| 0 <= j < k ==> discovered_device(orig, discovered_cards(orig)[j], #[trigger] out@[j]),
        decreases cards@.len() - k,
    {
        let card = str_chars(cards[k].as_str());
        let ghost c = card@;
        assert(texts_of(cards@)[k as int] == c);
        let mut cands: Vec<(String, Vec<VideoFormat>)> = Vec::new();
        let mut i: usize = 0;
        while i < eligible.len()
            invariant
                i <= eligible@.len(),
                card@ == c,
                cands@.len() == same_card_nodes(eligible@.take(i as int), c).len(),
                forall|j: int| 0 <= j < cands@.len() ==> (#[trigger] cands@[j]).0@ == same_card_nodes(
                    eligible@.take(i as int),
                    c,
                )[j].0@ && cands@[j].1@ == same_card_nodes(eligible@.take(i as int), c)[j].1@,
            decreases eligible@.len() - i,
        {
            proof {
                assert(eligible@.take(i + 1).drop_last() =~= eligible@.take(i as int));
                assert(eligible@.take(i + 1).last() == eligible@[i as int]);
            }
            let nv = str_chars(eligible[i].1.as_str());
            if chars_eq(&nv, &card) {
                let ghost before = cands@;
                cands.push((eligible[i].0.clone(), clone_formats(&eligible[i].2)));
                proof {
                    assert forall|j: int| 0 <= j < cands@.len() implies (#[trigger] cands@[j]).0@
                        == same_card_nodes(eligible@.take(i + 1), c)[j].0@ && cands@[j].1@
                        == same_card_nodes(eligible@.take(i + 1), c)[j].1@ by {
                        if j < before.len() {
                            assert(cands@[j] == before[j]);
                        }
                    }
                }
            }
            i = i + 1;
        }
        assert(eligible@.take(eligible@.len() as int) =~= eligible@);
        let ghost same = same_card_nodes(eligible@, c);
        proof {
            lemma_best_candidate_views(cands@, same);
            assert(discovered_cards(orig)[k as int] == c);
            lemma_card_has_node(orig, c);
            lemma_same_card_fit(eligible@, c);
            assert forall|j: int| 0 <= j < cands@.len() implies all_scores_fit(#[trigger] cands@[j].1@) by {
                assert(all_scores_fit(same[j].1@));
            }
        }
        match best_candidate_exec(&cands) {
            Some(b) => {
                let mut id = str_chars("v4l2:");
                let pv = str_chars(cands[b].0.as_str());
                push_chars(&mut id, &pv);
                let d = CaptureDevice {
                    id: string_from_chars(&id),
                    display_name: string_from_chars(&card),
                    backend: String::from_str("v4l2"),
                };
                out.push(d);
            },
            None => {
                proof {
                    assert(false);
                }
            },
        }
        k = k + 1;
    }
    out
}

proof fn lemma_insert_text_contains(s: Seq<Seq<char>>, x: Seq<char>, y: Seq<char>)
    ensures
        insert_text(s, x).contains(y) ==> y == x || s.contains(y),
    decreases s.len(),
{
    if s.len() > 0 && !text_lt(x, s[0]) {
        lemma_insert_text_contains(s.drop_first(), x, y);
        if insert_text(s, x).contains(y) && y != s[0] {
            let k = choose|k: int| 0 <= k < insert_text(s, x).len() && insert_text(s, x)[k] == y;
            assert(insert_text(s.drop_first(), x)[k - 1] == y);
            if s.drop_first().contains(y) {
                let m = choose|m: int| 0 <= m < s.drop_first().len() && s.drop_first()[m] == y;
                assert(s[m + 1] == y);
            }
        }
    }
}

proof fn lemma_sort_texts_contains(s: Seq<Seq<char>>, y: Seq<char>)
    ensures
        sort_texts(s).contains(y) ==> s.contains(y),
    decreases s.len(),
{
    if s.len() > 0 {
        lemma_sort_texts_contains(s.drop_last(), y);
        lemma_insert_text_contains(sort_texts(s.drop_last()), s.last(), y);
        if sort_texts(s).contains(y) {
            if y == s.last() {
                assert(s[s.len() - 1] == y);
            } else {
                let m = choose|m: int| 0 <= m < s.drop_last().len() && s.drop_last()[m] == y;
                assert(s[m] == y);
            }
        }
    }
}

proof fn lemma_distinct_contains(s: Seq<Seq<char>>, y: Seq<char>)
    ensures
        distinct_texts(s).contains(y) ==> s.contains(y),
    decreases s.len(),
{
    if s.len() > 0 {
        lemma_distinct_contains(s.drop_last(), y);
        if distinct_texts(s).contains(y) {
            if y == s.last() {
                assert(s[s.len() - 1] == y);
            } else {
                if !s.drop_last().contains(s.last()) {
                    let k = choose|k: int| 0 <= k < distinct_texts(s).len() && distinct_texts(s)[k] == y;
                    assert(distinct_texts(s.drop_last())[k] == y);
                }
                let m = choose|m: int| 0 <= m < s.drop_last().len() && s.drop_last()[m] == y;
                assert(s[m] == y);
            }
        }
    }
}

proof fn lemma_eligible_have_modes(nodes: Seq<(String, Option<String>, Vec<VideoFormat>)>)
    ensures
        forall|j: int| 0 <= j < eligible_nodes(nodes).len() ==> (#[trigger] eligible_nodes(nodes)[j]).2@.len() > 0,
    decreases nodes.len(),
{
    if nodes.len() > 0 {
        lemma_eligible_have_modes(nodes.drop_last());
        let rest = eligible_nodes(nodes.drop_last());
        let e = eligible_nodes(nodes);
        assert forall|j: int| 0 <= j < e.len() implies (#[trigger] e[j]).2@.len() > 0 by {
            if j < rest.len() {
                assert(e[j] == rest[j]);
            }
        }
    }
}

proof fn lemma_distinct_keeps(s: Seq<Seq<char>>, y: Seq<char>)
    ensures
        s.contains(y) ==> distinct_texts(s).contains(y),
    decreases s.len(),
{
    if s.len() > 0 {
        lemma_distinct_keeps(s.drop_last(), y);
        if s.contains(y) {
            let m = choose|m: int| 0 <= m < s.len() && s[m] == y;
            if m < s.len() - 1 {
                assert(s.drop_last()[m] == y);
                let d = distinct_texts(s.drop_last());
                let k = choose|k: int| 0 <= k < d.len() && d[k] == y;
                if !s.drop_last().contains(s.last()) {
                    assert(distinct_texts(s)[k] == y);
                }
            } else if s.drop_last().contains(s.last()) {
                lemma_distinct_keeps(s.drop_last(), s.last());
            } else {
                assert(distinct_texts(s)[distinct_texts(s).len() - 1] == y);
            }
        }
    }
}

proof fn lemma_same_card_has_modes(e: Seq<(String, String, Vec<VideoFormat>)>, c: Seq<char>, j: int)
    requires
        0 <= j < e.len(),
        e[j].1@ == c,
        e[j].2@.len() > 0,
    ensures
        exists|i: int| 0 <= i < same_card_nodes(e, c).len() && (#[trigger] same_card_nodes(e, c)[i]).1@.len() > 0,
    decreases e.len(),
{
    if j == e.len() - 1 {
        let i = same_card_nodes(e, c).len() - 1;
        assert(same_card_nodes(e, c)[i].1@.len() > 0);
    } else {
        assert(e.drop_last()[j] == e[j]);
        lemma_same_card_has_modes(e.drop_last(), c, j);
        let i = choose|i: int| 0 <= i < same_card_nodes(e.drop_last(), c).len() && (#[trigger] same_card_nodes(e.drop_last(), c)[i]).1@.len() > 0;
        assert(same_card_nodes(e, c)[i] == same_card_nodes(e.drop_last(), c)[i]);
    }
}

/// Every discovered card names some eligible node, so one of its candidates has
/// modes and a best node exists.
proof fn lemma_card_has_node(nodes: Seq<(String, Option<String>, Vec<VideoFormat>)>, c: Seq<char>)
    requires
        discovered_cards(nodes).contains(c),
    ensures
        best_candidate(same_card_nodes(eligible_nodes(nodes), c)) is Some,
{
    let e = eligible_nodes(nodes);
    let names = e.map_values(|n: (String, String, Vec<VideoFormat>)| n.1@);
    lemma_sort_texts_contains(distinct_texts(names), c);
    lemma_distinct_contains(names, c);
    let j = choose|j: int| 0 <= j < names.len() && names[j] == c;
    lemma_eligible_have_modes(nodes);
    assert(e[j].2@.len() > 0);
    lemma_same_card_has_modes(e, c, j);
    let i = choose|i: int| 0 <= i < same_card_nodes(e, c).len() && (#[trigger] same_card_nodes(e, c)[i]).1@.len() > 0;
    lemma_best_candidate_some(same_card_nodes(e, c), i);
}

// ---------------------------------------------------------------------------
// V4L2 nodes in sysfs
// ---------------------------------------------------------------------------

/// The video nodes of a `/sys/class/video4linux` listing: names starting with
/// `video`, as `/dev/` paths, in order.
pub open spec fn video_node_paths(names: Seq<Seq<char>>) -> Seq<Seq<char>>
    decreases names.len(),
{
    if names.len() == 0 {
        Seq::empty()
    } else if seq_starts_with(names.last(), "video"@) {
        video_node_paths(names.drop_last()).push("/dev/"@ + names.last())
    } else {
        video_node_paths(names.drop_last())
    }
}

/// The `/dev/video*` nodes named in a `/sys/class/video4linux` listing, sorted.
pub fn sysfs_video_nodes(names: Vec<String>) -> (r: Vec<String>)
    ensures
        texts_of(r@) == sort_texts(video_node_paths(texts_of(names@))),
{
    let ghost orig = names@;
    let mut paths: Vec<String> = Vec::new();
    for name in it: names.into_iter()
        invariant
            it.seq() == orig,
            texts_of(paths@) == video_node_paths(texts_of(orig.take(it.index() as int))),
    {
        proof {
            assert(texts_of(orig.take(it.index() + 1)).drop_last() =~= texts_of(orig.take(it.index() as int)));
            assert(texts_of(orig.take(it.index() + 1)).last() == name@);
        }
        let v = str_chars(name.as_str());
        if chars_start_with_str(&v, "video") {
            let mut p = str_chars("/dev/");
            push_chars(&mut p, &v);
            let ghost before = paths@;
            paths.push(string_from_chars(&p));
            proof {
                assert(texts_of(paths@) =~= texts_of(before).push(paths@.last()@));
            }
        }
    }
    assert(orig.take(orig.len() as int) =~= orig);
    sort_strings(paths)
}

/// The sysfs file holding the card name of the node `dev_path` (`/dev/NAME`).
pub open spec fn card_name_file_spec(dev_path: Seq<char>) -> Option<Seq<char>> {
    if seq_starts_with(dev_path, "/dev/"@) {
        Some("/sys/class/video4linux/"@ + dev_path.subrange(5, dev_path.len() as int) + "/name"@)
    } else {
        None
    }
}

pub fn card_name_file(dev_path: &str) -> (r: Option<String>)
    ensures
        match r {
            Some(p) => card_name_file_spec(dev_path@) == Some(p@),
            None => card_name_file_spec(dev_path@) is None,
        },
{
    let v = str_chars(dev_path);
    if !chars_start_with_str(&v, "/dev/") {
        return None;
    }
    proof {
        reveal_strlit("/dev/");
    }
    let name = crate::text::slice_chars(&v, 5, v.len());
    let mut p = str_chars("/sys/class/video4linux/");
    push_chars(&mut p, &name);
    push_str(&mut p, "/name");
    Some(string_from_chars(&p))
}

/// The card name in the contents of a sysfs `name` file: trimmed, none when empty.
pub open spec fn card_from_contents_spec(contents: Seq<char>) -> Option<Seq<char>> {
    if trim(contents).len() == 0 {
        None
    } else {
        Some(trim(contents))
    }
}

pub fn card_from_contents(contents: &str) -> (r: Option<String>)
    ensures
        match r {
            Some(c) => card_from_contents_spec(contents@) == Some(c@),
            None => card_from_contents_spec(contents@) is None,
        },
{
    let v = str_chars(contents);
    let t = trim_chars(&v);
    if t.len() == 0 {
        None
    } else {
        Some(string_from_chars(&t))
    }
}

} // verus!
