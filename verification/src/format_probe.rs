//! The capture modes of a device, read from the caps its source element reports.
//! A caps structure is handed in as plain values; this module turns it into
//! modes, orders them for the operator and keeps the preferred venue modes first.
use vstd::prelude::*;

use crate::devices::{parse_device_id, parsed_device_spec, ParsedDevice};
use crate::text::{
    chars_contain_str, chars_eq, chars_start_with_str, seq_contains, seq_starts_with, str_chars,
};
use crate::types::VideoFormat;

verus! {

/// An integer caps field: a fixed value, a range, or absent (or of another type).
#[derive(Debug, Clone, Copy, PartialEq, Eq, Structural)]
pub enum IntField {
    Value(i32),
    Range { min: i32, max: i32 },
    Missing,
}

/// The `framerate` caps field as numerator/denominator pairs.
#[derive(Debug, Clone, Copy, PartialEq, Eq, Structural)]
pub enum FractionField {
    Value(i32, i32),
    Range { min_num: i32, min_den: i32, max_num: i32, max_den: i32 },
    Missing,
}

/// One structure of a caps set: its media type name and the fields the probe reads.
#[derive(Debug)]
pub struct CapsStructure {
    pub name: String,
    /// The `format` field when it is a string.
    pub format: Option<String>,
    pub width: IntField,
    pub height: IntField,
    pub framerate: FractionField,
}

/// The `i`-th preferred venue mode as (width, height, fps), best first.
pub open spec fn preferred_mode(i: int) -> (i32, i32, i32) {
    if i == 0 { (1920, 1080, 60) }
    else if i == 1 { (1920, 1080, 50) }
    else if i == 2 { (1920, 1080, 30) }
    else if i == 3 { (1280, 720, 60) }
    else if i == 4 { (1280, 720, 50) }
    else if i == 5 { (1280, 720, 30) }
    else if i == 6 { (640, 480, 60) }
    else { (640, 480, 30) }
}

/// Number of preferred venue modes.
pub const PREFERRED_COUNT: usize = 8;

fn preferred_at(i: usize) -> (r: (i32, i32, i32))
    requires
        i < PREFERRED_COUNT,
    ensures
        r == preferred_mode(i as int),
{
    if i == 0 { (1920, 1080, 60) }
    else if i == 1 { (1920, 1080, 50) }
    else if i == 2 { (1920, 1080, 30) }
    else if i == 3 { (1280, 720, 60) }
    else if i == 4 { (1280, 720, 50) }
    else if i == 5 { (1280, 720, 30) }
    else if i == 6 { (640, 480, 60) }
    else { (640, 480, 30) }
}

/// The observable value of a mode: width, height, fps numerator and denominator,
/// and the pixel format text.
pub open spec fn mode_view(f: VideoFormat) -> (i32, i32, i32, i32, Seq<char>) {
    (f.width, f.height, f.fps_num, f.fps_den, f.pixel_format@)
}

/// The views of a list of modes.
pub open spec fn modes_view(s: Seq<VideoFormat>) -> Seq<(i32, i32, i32, i32, Seq<char>)> {
    s.map_values(|f: VideoFormat| mode_view(f))
}

/// The fallback list: every preferred mode at `fps/1` with pixel format `auto`.
pub open spec fn fallback_modes() -> Seq<(i32, i32, i32, i32, Seq<char>)> {
    Seq::new(
        8,
        |i: int| (preferred_mode(i).0, preferred_mode(i).1, preferred_mode(i).2, 1i32, "auto"@),
    )
}

/// The preferred modes, used when a device reports no caps.
pub fn preferred_fallback_formats() -> (r: Vec<VideoFormat>)
    ensures
        modes_view(r@) == fallback_modes(),
{
    let mut out: Vec<VideoFormat> = Vec::new();
    let mut i: usize = 0;
    while i < PREFERRED_COUNT
        invariant
            i <= PREFERRED_COUNT,
            modes_view(out@) == fallback_modes().take(i as int),
        decreases PREFERRED_COUNT - i,
    {
        let (w, h, fps) = preferred_at(i);
        let ghost before = out@;
        out.push(VideoFormat { width: w, height: h, fps_num: fps, fps_den: 1, pixel_format: String::from_str("auto") });
        proof {
            assert(modes_view(out@) =~= modes_view(before).push(mode_view(out@.last())));
            assert(fallback_modes().take(i + 1) =~= fallback_modes().take(i as int).push(
                fallback_modes()[i as int],
            ));
        }
        i = i + 1;
    }
    assert(fallback_modes().take(8) =~= fallback_modes());
    out
}

/// The values an integer field contributes: the value itself, or a range's maximum
/// and then its minimum when they differ.
pub open spec fn int_values_spec(f: IntField) -> Seq<i32> {
    match f {
        IntField::Value(v) => seq![v],
        IntField::Range { min, max } => if min != max {
            seq![max, min]
        } else {
            seq![max]
        },
        IntField::Missing => Seq::empty(),
    }
}

pub fn int_values(f: IntField) -> (r: Vec<i32>)
    ensures
        r@ == int_values_spec(f),
{
    match f {
        IntField::Value(v) => vec![v],
        IntField::Range { min, max } => {
            if min != max {
                vec![max, min]
            } else {
                vec![max]
            }
        },
        IntField::Missing => Vec::new(),
    }
}

/// `s` without the items that already occurred earlier (first occurrences kept).
pub open spec fn dedupe_spec(s: Seq<(u32, u32)>) -> Seq<(u32, u32)>
    decreases s.len(),
{
    if s.len() == 0 {
        Seq::empty()
    } else if s.drop_last().contains(s.last()) {
        dedupe_spec(s.drop_last())
    } else {
        dedupe_spec(s.drop_last()).push(s.last())
    }
}

fn occurs_before(list: &Vec<(u32, u32)>, i: usize) -> (r: bool)
    requires
        i < list@.len(),
    ensures
        r == list@.take(i as int).contains(list@[i as int]),
{
    let mut j: usize = 0;
    while j < i
        invariant
            i < list@.len(),
            j <= i,
            forall|k: int| 0 <= k < j ==> list@[k] != list@[i as int],
        decreases i - j,
    {
        if list[j].0 == list[i].0 && list[j].1 == list[i].1 {
            proof {
                assert(list@.take(i as int)[j as int] == list@[i as int]);
            }
            return true;
        }
        j = j + 1;
    }
    proof {
        if list@.take(i as int).contains(list@[i as int]) {
            let k = choose|k: int| 0 <= k < i && list@.take(i as int)[k] == list@[i as int];
            assert(list@[k] == list@[i as int]);
        }
    }
    false
}

/// Drops repeated frame rates, keeping the first occurrence of each.
pub fn dedupe_fractions(list: Vec<(u32, u32)>) -> (r: Vec<(u32, u32)>)
    ensures
        r@ == dedupe_spec(list@),
{
    let mut out: Vec<(u32, u32)> = Vec::new();
    let mut i: usize = 0;
    while i < list.len()
        invariant
            i <= list@.len(),
            out@ == dedupe_spec(list@.take(i as int)),
        decreases list@.len() - i,
    {
        proof {
            assert(list@.take(i + 1).drop_last() =~= list@.take(i as int));
            assert(list@.take(i + 1).last() == list@[i as int]);
        }
        if i < list.len() && !occurs_before(&list, i) {
            out.push(list[i]);
        }
        i = i + 1;
    }
    assert(list@.take(list@.len() as int) =~= list@);
    out
}

/// The frame rates a structure offers: its single rate, or a range's maximum and
/// then its minimum when it differs; 60, 50 and 30 fps when the field is absent.
pub open spec fn framerate_values_spec(f: FractionField) -> Seq<(u32, u32)> {
    match f {
        FractionField::Value(n, d) => seq![(n as u32, d as u32)],
        FractionField::Range { min_num, min_den, max_num, max_den } => {
            let high = (max_num as u32, max_den as u32);
            let low = (min_num as u32, min_den as u32);
            if low.0 != high.0 || low.1 != high.1 {
                dedupe_spec(seq![high, low])
            } else {
                dedupe_spec(seq![high])
            }
        },
        FractionField::Missing => seq![(60u32, 1u32), (50u32, 1u32), (30u32, 1u32)],
    }
}

pub fn framerate_values(f: FractionField) -> (r: Vec<(u32, u32)>)
    ensures
        r@ == framerate_values_spec(f),
{
    match f {
        FractionField::Value(n, d) => vec![(n as u32, d as u32)],
        FractionField::Range { min_num, min_den, max_num, max_den } => {
            let high = (max_num as u32, max_den as u32);
            let low = (min_num as u32, min_den as u32);
            let mut out: Vec<(u32, u32)> = Vec::new();
            out.push(high);
            if low.0 != high.0 || low.1 != high.1 {
                out.push(low);
            }
            proof {
                if low.0 != high.0 || low.1 != high.1 {
                    assert(out@ =~= seq![high, low]);
                } else {
                    assert(out@ =~= seq![high]);
                }
            }
            dedupe_fractions(out)
        },
        FractionField::Missing => vec![(60, 1), (50, 1), (30, 1)],
    }
}

/// The pixel format a structure stands for: MJPEG for JPEG types, H264 for H.264,
/// else its `format` field (`auto` when absent).
pub open spec fn structure_pixel_format(name: Seq<char>, format: Option<Seq<char>>) -> Seq<char> {
    if seq_contains(name, "jpeg"@) {
        "MJPEG"@
    } else if seq_contains(name, "h264"@) {
        "H264"@
    } else {
        match format {
            Some(f) => f,
            None => "auto"@,
        }
    }
}

/// The format text behind an optional string.
pub open spec fn opt_text(s: Option<String>) -> Option<Seq<char>> {
    match s {
        Some(t) => Some(t@),
        None => None,
    }
}

/// The modes of one width, every height and rate, in order, that have positive
/// dimensions and a non-zero rate.
pub open spec fn modes_for_height_rates(
    w: i32,
    h: i32,
    rates: Seq<(u32, u32)>,
    pf: Seq<char>,
) -> Seq<(i32, i32, i32, i32, Seq<char>)>
    decreases rates.len(),
{
    if rates.len() == 0 {
        Seq::empty()
    } else {
        let rest = modes_for_height_rates(w, h, rates.drop_last(), pf);
        let (num, den) = rates.last();
        if w > 0 && h > 0 && num > 0 && den > 0 {
            rest.push((w, h, num as i32, den as i32, pf))
        } else {
            rest
        }
    }
}

pub open spec fn modes_for_width(
    w: i32,
    heights: Seq<i32>,
    rates: Seq<(u32, u32)>,
    pf: Seq<char>,
) -> Seq<(i32, i32, i32, i32, Seq<char>)>
    decreases heights.len(),
{
    if heights.len() == 0 {
        Seq::empty()
    } else {
        modes_for_width(w, heights.drop_last(), rates, pf) + modes_for_height_rates(
            w,
            heights.last(),
            rates,
            pf,
        )
    }
}

/// Every (width, height, rate) combination, widths outermost, as modes.
pub open spec fn modes_for(
    widths: Seq<i32>,
    heights: Seq<i32>,
    rates: Seq<(u32, u32)>,
    pf: Seq<char>,
) -> Seq<(i32, i32, i32, i32, Seq<char>)>
    decreases widths.len(),
{
    if widths.len() == 0 {
        Seq::empty()
    } else {
        modes_for(widths.drop_last(), heights, rates, pf) + modes_for_width(
            widths.last(),
            heights,
            rates,
            pf,
        )
    }
}

/// The modes a caps structure describes; none unless it is a video or image type.
pub open spec fn structure_modes(s: CapsStructure) -> Seq<(i32, i32, i32, i32, Seq<char>)> {
    if !seq_starts_with(s.name@, "video/"@) && !seq_starts_with(s.name@, "image/"@) {
        Seq::empty()
    } else {
        modes_for(
            int_values_spec(s.width),
            int_values_spec(s.height),
            framerate_values_spec(s.framerate),
            structure_pixel_format(s.name@, opt_text(s.format)),
        )
    }
}

fn push_modes_for_height(
    out: &mut Vec<VideoFormat>,
    w: i32,
    h: i32,
    rates: &Vec<(u32, u32)>,
    pf: &String,
)
    ensures
        modes_view(final(out)@) == modes_view(old(out)@) + modes_for_height_rates(w, h, rates@, pf@),
{
    let ghost start = modes_view(out@);
    let mut k: usize = 0;
    while k < rates.len()
        invariant
            k <= rates@.len(),
            modes_view(out@) == start + modes_for_height_rates(w, h, rates@.take(k as int), pf@),
        decreases rates@.len() - k,
    {
        proof {
            assert(rates@.take(k + 1).drop_last() =~= rates@.take(k as int));
            assert(rates@.take(k + 1).last() == rates@[k as int]);
        }
        let (num, den) = rates[k];
        let ghost before = out@;
        if w > 0 && h > 0 && num > 0 && den > 0 {
            out.push(VideoFormat { width: w, height: h, fps_num: #[verifier::truncate] (num as i32), fps_den: #[verifier::truncate] (den as i32), pixel_format: pf.clone() });
            proof {
                assert(modes_view(out@) =~= modes_view(before).push(mode_view(out@.last())));
                assert(mode_view(out@.last()) == (w, h, num as i32, den as i32, pf@));
            }
        }
        k = k + 1;
    }
    assert(rates@.take(rates@.len() as int) =~= rates@);
}

fn push_modes_for_width(
    out: &mut Vec<VideoFormat>,
    w: i32,
    heights: &Vec<i32>,
    rates: &Vec<(u32, u32)>,
    pf: &String,
)
    ensures
        modes_view(final(out)@) == modes_view(old(out)@) + modes_for_width(w, heights@, rates@, pf@),
{
    let ghost start = modes_view(out@);
    let mut j: usize = 0;
    while j < heights.len()
        invariant
            j <= heights@.len(),
            modes_view(out@) == start + modes_for_width(w, heights@.take(j as int), rates@, pf@),
        decreases heights@.len() - j,
    {
        proof {
            assert(heights@.take(j + 1).drop_last() =~= heights@.take(j as int));
        }
        push_modes_for_height(out, w, heights[j], rates, pf);
        proof {
            assert(start + modes_for_width(w, heights@.take(j as int), rates@, pf@)
                + modes_for_height_rates(w, heights@[j as int], rates@, pf@) =~= start
                + modes_for_width(w, heights@.take(j + 1), rates@, pf@));
        }
        j = j + 1;
    }
    assert(heights@.take(heights@.len() as int) =~= heights@);
}

/// The modes one caps structure describes.
pub fn structure_to_formats(s: &CapsStructure) -> (r: Vec<VideoFormat>)
    ensures
        modes_view(r@) == structure_modes(*s),
{
    let name = str_chars(s.name.as_str());
    if !chars_start_with_str(&name, "video/") && !chars_start_with_str(&name, "image/") {
        proof {
            assert(modes_view(Seq::<VideoFormat>::empty()) =~= Seq::empty());
        }
        return Vec::new();
    }
    let pixel_format = if chars_contain_str(&name, "jpeg") {
        String::from_str("MJPEG")
    } else if chars_contain_str(&name, "h264") {
        String::from_str("H264")
    } else {
        match &s.format {
            Some(f) => f.clone(),
            None => String::from_str("auto"),
        }
    };
    let widths = int_values(s.width);
    let heights = int_values(s.height);
    let rates = framerate_values(s.framerate);
    let mut out: Vec<VideoFormat> = Vec::new();
    let mut i: usize = 0;
    proof {
        assert(modes_view(out@) =~= Seq::empty());
    }
    while i < widths.len()
        invariant
            i <= widths@.len(),
            modes_view(out@) == modes_for(widths@.take(i as int), heights@, rates@, pixel_format@),
        decreases widths@.len() - i,
    {
        proof {
            assert(widths@.take(i + 1).drop_last() =~= widths@.take(i as int));
        }
        push_modes_for_width(&mut out, widths[i], &heights, &rates, &pixel_format);
        i = i + 1;
    }
    assert(widths@.take(widths@.len() as int) =~= widths@);
    out
}

/// The modes of every structure of a caps set, in order.
pub open spec fn caps_modes(caps: Seq<CapsStructure>) -> Seq<(i32, i32, i32, i32, Seq<char>)>
    decreases caps.len(),
{
    if caps.len() == 0 {
        Seq::empty()
    } else {
        caps_modes(caps.drop_last()) + structure_modes(caps.last())
    }
}

pub fn caps_to_formats(caps: &Vec<CapsStructure>) -> (r: Vec<VideoFormat>)
    ensures
        modes_view(r@) == caps_modes(caps@),
{
    let mut out: Vec<VideoFormat> = Vec::new();
    let mut i: usize = 0;
    proof {
        assert(modes_view(out@) =~= Seq::empty());
    }
    while i < caps.len()
        invariant
            i <= caps@.len(),
            modes_view(out@) == caps_modes(caps@.take(i as int)),
        decreases caps@.len() - i,
    {
        proof {
            assert(caps@.take(i + 1).drop_last() =~= caps@.take(i as int));
        }
        let mut more = structure_to_formats(&caps[i]);
        let ghost before = out@;
        let ghost added = more@;
        out.append(&mut more);
        proof {
            assert(out@ =~= before + added);
            assert(modes_view(before + added) =~= modes_view(before) + modes_view(added));
        }
        i = i + 1;
    }
    assert(caps@.take(caps@.len() as int) =~= caps@);
    out
}

// ---------------------------------------------------------------------------
// Ordering the probed modes
// ---------------------------------------------------------------------------

/// The sort key (width, height, fps numerator) of `a` is below that of `b`.
pub open spec fn key_lt(a: VideoFormat, b: VideoFormat) -> bool {
    ||| a.width < b.width
    ||| a.width == b.width && a.height < b.height
    ||| a.width == b.width && a.height == b.height && a.fps_num < b.fps_num
}

/// `f` inserted into `s` just before the first mode whose key is below its own.
pub open spec fn insert_desc(s: Seq<VideoFormat>, f: VideoFormat) -> Seq<VideoFormat>
    decreases s.len(),
{
    if s.len() == 0 {
        seq![f]
    } else if key_lt(s[0], f) {
        seq![f] + s
    } else {
        seq![s[0]] + insert_desc(s.drop_first(), f)
    }
}

/// `s` stably sorted by descending key: higher resolutions and rates first, modes
/// with equal keys in their original order.
pub open spec fn sort_desc(s: Seq<VideoFormat>) -> Seq<VideoFormat>
    decreases s.len(),
{
    if s.len() == 0 {
        Seq::empty()
    } else {
        insert_desc(sort_desc(s.drop_last()), s.last())
    }
}

proof fn lemma_insert_at(s: Seq<VideoFormat>, f: VideoFormat, j: int)
    requires
        0 <= j <= s.len(),
        forall|k: int| 0 <= k < j ==> !key_lt(#[trigger] s[k], f),
        j < s.len() ==> key_lt(s[j], f),
    ensures
        insert_desc(s, f) == s.insert(j, f),
    decreases s.len(),
{
    if s.len() == 0 {
        assert(s.insert(j, f) =~= seq![f]);
    } else if key_lt(s[0], f) {
        assert(s.insert(j, f) =~= seq![f] + s);
    } else {
        let t = s.drop_first();
        assert forall|k: int| 0 <= k < j - 1 implies !key_lt(#[trigger] t[k], f) by {
            assert(t[k] == s[k + 1]);
        }
        if j - 1 < t.len() {
            assert(t[j - 1] == s[j]);
        }
        lemma_insert_at(t, f, j - 1);
        assert(s.insert(j, f) =~= seq![s[0]] + t.insert(j - 1, f));
    }
}

/// Index of the first mode of `s`, from `j` on, whose key is below `f`'s (the
/// length when there is none).
pub open spec fn insert_position(s: Seq<VideoFormat>, f: VideoFormat, j: int) -> int
    decreases s.len() - j,
{
    if j < 0 || j >= s.len() {
        s.len() as int
    } else if key_lt(s[j], f) {
        j
    } else {
        insert_position(s, f, j + 1)
    }
}

proof fn lemma_insert_position(s: Seq<VideoFormat>, f: VideoFormat, j: int)
    requires
        0 <= j <= s.len(),
    ensures
        j <= insert_position(s, f, j) <= s.len(),
        forall|k: int| j <= k < insert_position(s, f, j) ==> !key_lt(#[trigger] s[k], f),
        insert_position(s, f, j) < s.len() ==> key_lt(s[insert_position(s, f, j)], f),
    decreases s.len() - j,
{
    if j < s.len() && !key_lt(s[j], f) {
        lemma_insert_position(s, f, j + 1);
    }
}

/// No mode of `s` has a key below that of a mode after it.
pub open spec fn sorted_desc(s: Seq<VideoFormat>) -> bool {
    forall|i: int, j: int| 0 <= i < j < s.len() ==> !key_lt(#[trigger] s[i], #[trigger] s[j])
}

proof fn lemma_insert_sorted(s: Seq<VideoFormat>, f: VideoFormat)
    requires
        sorted_desc(s),
    ensures
        sorted_desc(insert_desc(s, f)),
        insert_desc(s, f).to_multiset() == s.to_multiset().insert(f),
{
    let p = insert_position(s, f, 0);
    lemma_insert_position(s, f, 0);
    lemma_insert_at(s, f, p);
    let r = s.insert(p, f);
    assert forall|i: int, j: int| 0 <= i < j < r.len() implies !key_lt(#[trigger] r[i], #[trigger] r[j]) by {
        if j < p {
            assert(r[i] == s[i] && r[j] == s[j]);
        } else if j == p {
            assert(r[i] == s[i] && r[j] == f);
        } else if i < p {
            assert(r[i] == s[i] && r[j] == s[j - 1]);
        } else if i == p {
            assert(r[i] == f && r[j] == s[j - 1]);
            assert(key_lt(s[p], f));
            if j - 1 > p {
                assert(!key_lt(s[p], s[j - 1]));
            }
        } else {
            assert(r[i] == s[i - 1] && r[j] == s[j - 1]);
        }
    }
    vstd::seq_lib::to_multiset_insert(s, p, f);
}

/// Sorting leaves every mode at or above the key of each mode after it.
pub proof fn law_sorted_modes_descend(s: Seq<VideoFormat>)
    ensures
        sorted_desc(sort_desc(s)),
    decreases s.len(),
{
    if s.len() > 0 {
        law_sorted_modes_descend(s.drop_last());
        lemma_insert_sorted(sort_desc(s.drop_last()), s.last());
    }
}

/// Sorting neither drops nor adds a mode: the result is a permutation.
pub proof fn law_sort_keeps_modes(s: Seq<VideoFormat>)
    ensures
        sort_desc(s).to_multiset() == s.to_multiset(),
    decreases s.len(),
{
    if s.len() > 0 {
        law_sort_keeps_modes(s.drop_last());
        law_sorted_modes_descend(s.drop_last());
        lemma_insert_sorted(sort_desc(s.drop_last()), s.last());
        vstd::seq_lib::to_multiset_build(s.drop_last(), s.last());
        assert(s.drop_last().push(s.last()) =~= s);
    } else {
        assert(sort_desc(s) =~= s);
    }
}

/// Stable insertion sort by descending key.
fn sort_modes_desc(formats: Vec<VideoFormat>) -> (r: Vec<VideoFormat>)
    ensures
        r@ == sort_desc(formats@),
{
    let ghost orig = formats@;
    let mut out: Vec<VideoFormat> = Vec::new();
    for f in it: formats.into_iter()
        invariant
            it.seq() == orig,
            out@ == sort_desc(orig.take(it.index() as int)),
    {
        proof {
            assert(orig.take(it.index() + 1).drop_last() =~= orig.take(it.index() as int));
            assert(orig.take(it.index() + 1).last() == f);
        }
        let mut j: usize = 0;
        while j < out.len() && !(out[j].width < f.width || (out[j].width == f.width && out[j].height
            < f.height) || (out[j].width == f.width && out[j].height == f.height && out[j].fps_num
            < f.fps_num))
            invariant
                j <= out@.len(),
                forall|k: int| 0 <= k < j ==> !key_lt(#[trigger] out@[k], f),
            decreases out@.len() - j,
        {
            j = j + 1;
        }
        proof {
            lemma_insert_at(out@, f, j as int);
        }
        out.insert(j, f);
    }
    assert(orig.take(orig.len() as int) =~= orig);
    out
}

/// Two modes agree in every field.
pub open spec fn same_mode(a: VideoFormat, b: VideoFormat) -> bool {
    mode_view(a) == mode_view(b)
}

/// `s` with each mode equal to the one kept just before it removed.
pub open spec fn dedup_spec(s: Seq<VideoFormat>) -> Seq<VideoFormat>
    decreases s.len(),
{
    if s.len() == 0 {
        Seq::empty()
    } else {
        let r = dedup_spec(s.drop_last());
        if r.len() > 0 && same_mode(r.last(), s.last()) {
            r
        } else {
            r.push(s.last())
        }
    }
}

fn dedup_modes(s: Vec<VideoFormat>) -> (r: Vec<VideoFormat>)
    ensures
        r@ == dedup_spec(s@),
{
    let ghost orig = s@;
    let mut out: Vec<VideoFormat> = Vec::new();
    for f in it: s.into_iter()
        invariant
            it.seq() == orig,
            out@ == dedup_spec(orig.take(it.index() as int)),
    {
        proof {
            assert(orig.take(it.index() + 1).drop_last() =~= orig.take(it.index() as int));
            assert(orig.take(it.index() + 1).last() == f);
        }
        let n = out.len();
        let dup = if n > 0 {
            let last = &out[n - 1];
            let a = str_chars(last.pixel_format.as_str());
            let b = str_chars(f.pixel_format.as_str());
            last.width == f.width && last.height == f.height && last.fps_num == f.fps_num
                && last.fps_den == f.fps_den && chars_eq(&a, &b)
        } else {
            false
        };
        if !dup {
            out.push(f);
        }
    }
    assert(orig.take(orig.len() as int) =~= orig);
    out
}

/// After deduplication no mode equals the one right after it.
pub proof fn law_dedup_no_adjacent_repeats(s: Seq<VideoFormat>)
    ensures
        forall|i: int| 0 <= i < dedup_spec(s).len() - 1 ==> !same_mode(#[trigger] dedup_spec(s)[i], dedup_spec(s)[i + 1]),
    decreases s.len(),
{
    if s.len() > 0 {
        law_dedup_no_adjacent_repeats(s.drop_last());
        let r = dedup_spec(s.drop_last());
        if !(r.len() > 0 && same_mode(r.last(), s.last())) {
            let t = r.push(s.last());
            assert forall|i: int| 0 <= i < t.len() - 1 implies !same_mode(#[trigger] t[i], t[i + 1]) by {
                if i < r.len() - 1 {
                    assert(t[i] == r[i] && t[i + 1] == r[i + 1]);
                }
            }
        }
    }
}

/// `f` has the (width, height, fps) of `m`.
pub open spec fn has_mode(f: VideoFormat, m: (i32, i32, i32)) -> bool {
    f.width == m.0 && f.height == m.1 && f.fps_num == m.2
}

/// Index of the first mode of `s`, from `j` on, that has `m`.
pub open spec fn first_mode_from(s: Seq<VideoFormat>, m: (i32, i32, i32), j: int) -> Option<int>
    decreases s.len() - j,
{
    if j < 0 || j >= s.len() {
        None
    } else if has_mode(s[j], m) {
        Some(j)
    } else {
        first_mode_from(s, m, j + 1)
    }
}

/// For each of the first `n` preferred modes, in order, the first mode of `s`
/// that has it, where there is one.
pub open spec fn preferred_picks(s: Seq<VideoFormat>, n: nat) -> Seq<VideoFormat>
    decreases n,
{
    if n == 0 {
        Seq::empty()
    } else {
        let r = preferred_picks(s, (n - 1) as nat);
        match first_mode_from(s, preferred_mode(n - 1), 0) {
            Some(i) => r.push(s[i]),
            None => r,
        }
    }
}

/// `f` has one of the preferred modes.
pub open spec fn is_preferred(f: VideoFormat) -> bool {
    exists|k: int| 0 <= k < 8 && has_mode(f, #[trigger] preferred_mode(k))
}

/// The modes of `s` that have none of the preferred modes, in order.
pub open spec fn non_preferred(s: Seq<VideoFormat>) -> Seq<VideoFormat>
    decreases s.len(),
{
    if s.len() == 0 {
        Seq::empty()
    } else if is_preferred(s.last()) {
        non_preferred(s.drop_last())
    } else {
        non_preferred(s.drop_last()).push(s.last())
    }
}

/// At most the first `n` items of `s`.
pub open spec fn at_most<A>(s: Seq<A>, n: int) -> Seq<A> {
    if s.len() <= n {
        s
    } else {
        s.take(n)
    }
}

/// The ordered mode list: sorted by descending key and deduplicated; when any
/// preferred mode is present, the preferred picks come first followed by at most
/// 12 other modes, else at most 16 modes.
pub open spec fn ordered_modes(s: Seq<VideoFormat>) -> Seq<VideoFormat> {
    let d = dedup_spec(sort_desc(s));
    let p = preferred_picks(d, 8);
    if p.len() > 0 {
        p + at_most(non_preferred(d), 12)
    } else {
        at_most(d, 16)
    }
}

fn first_with_mode(s: &Vec<VideoFormat>, m: (i32, i32, i32)) -> (r: Option<usize>)
    ensures
        match r {
            Some(i) => i < s@.len() && first_mode_from(s@, m, 0) == Some(i as int),
            None => first_mode_from(s@, m, 0) is None,
        },
{
    let mut j: usize = 0;
    while j < s.len()
        invariant
            j <= s@.len(),
            first_mode_from(s@, m, 0) == first_mode_from(s@, m, j as int),
        decreases s@.len() - j,
    {
        if s[j].width == m.0 && s[j].height == m.1 && s[j].fps_num == m.2 {
            return Some(j);
        }
        j = j + 1;
    }
    None
}

fn matches_preferred(f: &VideoFormat) -> (r: bool)
    ensures
        r == is_preferred(*f),
{
    let mut k: usize = 0;
    while k < PREFERRED_COUNT
        invariant
            k <= PREFERRED_COUNT,
            forall|i: int| 0 <= i < k ==> !has_mode(*f, #[trigger] preferred_mode(i)),
        decreases PREFERRED_COUNT - k,
    {
        let m = preferred_at(k);
        if f.width == m.0 && f.height == m.1 && f.fps_num == m.2 {
            return true;
        }
        k = k + 1;
    }
    false
}

/// Orders probed modes for the operator: highest resolution and rate first,
/// duplicates removed, preferred venue modes in front.
pub fn filter_and_sort_formats(formats: Vec<VideoFormat>) -> (r: Vec<VideoFormat>)
    ensures
        r@ == ordered_modes(formats@),
{
    let sorted = sort_modes_desc(formats);
    let d = dedup_modes(sorted);
    let mut picks: Vec<VideoFormat> = Vec::new();
    let mut k: usize = 0;
    while k < PREFERRED_COUNT
        invariant
            k <= PREFERRED_COUNT,
            picks@ == preferred_picks(d@, k as nat),
        decreases PREFERRED_COUNT - k,
    {
        let m = preferred_at(k);
        let ghost before = picks@;
        match first_with_mode(&d, m) {
            Some(i) => {
                let c = d[i].clone();
                picks.push(c);
                assert(picks@ == before.push(d@[i as int]));
                assert(first_mode_from(d@, preferred_mode(k as int), 0) == Some(i as int));
            },
            None => {
                assert(first_mode_from(d@, preferred_mode(k as int), 0) is None);
            },
        }
        proof {
            assert(preferred_picks(d@, (k + 1) as nat) == match first_mode_from(d@, preferred_mode(k as int), 0) {
                Some(i) => before.push(d@[i]),
                None => before,
            });
        }
        k = k + 1;
    }
    if picks.len() > 0 {
        let mut rest: Vec<VideoFormat> = Vec::new();
        let mut i: usize = 0;
        while i < d.len()
            invariant
                i <= d@.len(),
                rest@ == non_preferred(d@.take(i as int)),
            decreases d@.len() - i,
        {
            proof {
                assert(d@.take(i + 1).drop_last() =~= d@.take(i as int));
                assert(d@.take(i + 1).last() == d@[i as int]);
            }
            if !matches_preferred(&d[i]) {
                rest.push(d[i].clone());
            }
            i = i + 1;
        }
        assert(d@.take(d@.len() as int) =~= d@);
        let mut out = picks;
        let ghost p = out@;
        let mut j: usize = 0;
        while j < rest.len() && j < 12
            invariant
                j <= rest@.len(),
                j <= 12,
                out@ == p + rest@.take(j as int),
            decreases rest@.len() - j,
        {
            out.push(rest[j].clone());
            proof {
                assert(rest@.take(j + 1) =~= rest@.take(j as int).push(rest@[j as int]));
            }
            j = j + 1;
        }
        proof {
            if rest@.len() <= 12 {
                assert(rest@.take(j as int) =~= rest@);
            }
        }
        out
    } else {
        let mut out = d;
        if out.len() > 16 {
            out.truncate(16);
        }
        out
    }
}

// ---------------------------------------------------------------------------
// Probe decisions
// ---------------------------------------------------------------------------

/// The V4L2 node a configured device id names, if any (the test pattern and
/// automatic or default selection name none).
pub open spec fn v4l2_path_spec(s: Seq<char>) -> Option<Seq<char>> {
    if s == "test"@ {
        None
    } else if crate::text::unicode_lowercase(crate::text::trim(s)) == "auto"@ {
        None
    } else if s == "default"@ || s.len() == 0 {
        None
    } else if seq_starts_with(s, "v4l2:"@) {
        Some(s.subrange(5, s.len() as int))
    } else if seq_starts_with(s, "/dev/video"@) {
        Some(s)
    } else {
        None
    }
}

/// The text behind an optional string.
pub open spec fn opt_string_view(s: Option<String>) -> Option<Seq<char>> {
    match s {
        Some(t) => Some(t@),
        None => None,
    }
}

/// The device node whose caps must be probed; `None` when the fallback list is
/// used without probing.
pub fn probe_target(device_id: &str) -> (r: Option<String>)
    ensures
        opt_string_view(r) == v4l2_path_spec(device_id@),
{
    let parsed = parse_device_id(device_id);
    proof {
        assert(parsed_device_spec(device_id@, parsed));
    }
    match parsed {
        ParsedDevice::V4l2 { path } => Some(path),
        _ => None,
    }
}

/// The modes found in probed caps (`None` when the probe failed).
pub open spec fn probed_modes(caps: Option<Vec<CapsStructure>>) -> Seq<(i32, i32, i32, i32, Seq<char>)> {
    match caps {
        Some(c) => caps_modes(c@),
        None => Seq::empty(),
    }
}

/// The mode list for probed caps: the fallback list when they hold no mode, else
/// the ordered modes.
pub fn formats_from_caps(caps: Option<Vec<CapsStructure>>) -> (r: Vec<VideoFormat>)
    ensures
        probed_modes(caps).len() == 0 ==> modes_view(r@) == fallback_modes(),
        probed_modes(caps).len() > 0 ==> exists|probed: Seq<VideoFormat>|
            modes_view(probed) == probed_modes(caps) && r@ == #[trigger] ordered_modes(probed),
{
    let formats = match &caps {
        Some(c) => caps_to_formats(c),
        None => {
            let v: Vec<VideoFormat> = Vec::new();
            assert(modes_view(v@) =~= Seq::empty());
            v
        },
    };
    if formats.len() == 0 {
        preferred_fallback_formats()
    } else {
        let ghost probed = formats@;
        let r = filter_and_sort_formats(formats);
        assert(modes_view(probed) == probed_modes(caps));
        r
    }
}

/// The supported modes of a device: the fallback list for the test pattern and
/// automatic or default selection; otherwise the modes in `caps`, the caps probed
/// from the device's node (see `probe_target`).
pub fn probe_formats(device_id: &str, caps: Option<Vec<CapsStructure>>) -> (r: Vec<VideoFormat>)
    ensures
        v4l2_path_spec(device_id@) is None || probed_modes(caps).len() == 0 ==> modes_view(r@)
            == fallback_modes(),
        v4l2_path_spec(device_id@) is Some && probed_modes(caps).len() > 0 ==> exists|
            probed: Seq<VideoFormat>,
        | modes_view(probed) == probed_modes(caps) && r@ == #[trigger] ordered_modes(probed),
{
    match probe_target(device_id) {
        None => preferred_fallback_formats(),
        Some(_) => formats_from_caps(caps),
    }
}

/// The fallback list is the venue modes, best first: 1080p at 60, 50 and 30 fps,
/// 720p at 60, 50 and 30 fps, 480p at 60 and 30 fps, each at `fps/1` with pixel
/// format `auto`.
pub proof fn law_fallback_modes_are_venue_modes()
    ensures
        fallback_modes() == seq![
            (1920i32, 1080i32, 60i32, 1i32, "auto"@),
            (1920i32, 1080i32, 50i32, 1i32, "auto"@),
            (1920i32, 1080i32, 30i32, 1i32, "auto"@),
            (1280i32, 720i32, 60i32, 1i32, "auto"@),
            (1280i32, 720i32, 50i32, 1i32, "auto"@),
            (1280i32, 720i32, 30i32, 1i32, "auto"@),
            (640i32, 480i32, 60i32, 1i32, "auto"@),
            (640i32, 480i32, 30i32, 1i32, "auto"@),
        ],
{
    assert(fallback_modes() =~= seq![
        (1920i32, 1080i32, 60i32, 1i32, "auto"@),
        (1920i32, 1080i32, 50i32, 1i32, "auto"@),
        (1920i32, 1080i32, 30i32, 1i32, "auto"@),
        (1280i32, 720i32, 60i32, 1i32, "auto"@),
        (1280i32, 720i32, 50i32, 1i32, "auto"@),
        (1280i32, 720i32, 30i32, 1i32, "auto"@),
        (640i32, 480i32, 60i32, 1i32, "auto"@),
        (640i32, 480i32, 30i32, 1i32, "auto"@),
    ]);
}

/// Where a mode stands among the venue modes, best first (1080p at 60, 50, 30
/// fps; 720p at 60, 50, 30 fps; 480p at 60, 30 fps), by its size and fps
/// numerator; none for other modes.
pub open spec fn venue_rank(f: VideoFormat) -> Option<int> {
    if f.width == 1920 && f.height == 1080 {
        if f.fps_num == 60 {
            Some(0)
        } else if f.fps_num == 50 {
            Some(1)
        } else if f.fps_num == 30 {
            Some(2)
        } else {
            None
        }
    } else if f.width == 1280 && f.height == 720 {
        if f.fps_num == 60 {
            Some(3)
        } else if f.fps_num == 50 {
            Some(4)
        } else if f.fps_num == 30 {
            Some(5)
        } else {
            None
        }
    } else if f.width == 640 && f.height == 480 {
        if f.fps_num == 60 {
            Some(6)
        } else if f.fps_num == 30 {
            Some(7)
        } else {
            None
        }
    } else {
        None
    }
}

proof fn lemma_preferred_rank(f: VideoFormat, k: int)
    requires
        0 <= k < 8,
    ensures
        has_mode(f, preferred_mode(k)) <==> venue_rank(f) == Some(k),
{
}

proof fn lemma_is_preferred_rank(f: VideoFormat)
    ensures
        is_preferred(f) <==> venue_rank(f) is Some,
{
    if venue_rank(f) is Some {
        let k = venue_rank(f)->0;
        lemma_preferred_rank(f, k);
        assert(has_mode(f, preferred_mode(k)));
    }
    if is_preferred(f) {
        let k = choose|k: int| 0 <= k < 8 && has_mode(f, #[trigger] preferred_mode(k));
        lemma_preferred_rank(f, k);
    }
}

proof fn lemma_first_mode_from(s: Seq<VideoFormat>, m: (i32, i32, i32), j: int)
    ensures
        first_mode_from(s, m, j) matches Some(i) ==> 0 <= i < s.len() && has_mode(s[i], m),
        first_mode_from(s, m, j) is None && 0 <= j ==> forall|q: int| j <= q < s.len() ==> !has_mode(#[trigger] s[q], m),
    decreases s.len() - j,
{
    if 0 <= j < s.len() && !has_mode(s[j], m) {
        lemma_first_mode_from(s, m, j + 1);
    }
}

proof fn lemma_picks_ranked(s: Seq<VideoFormat>, n: nat)
    requires
        n <= 8,
    ensures
        forall|i: int|
            0 <= i < preferred_picks(s, n).len() ==> (venue_rank(#[trigger] preferred_picks(s, n)[i]) is Some && venue_rank(
                preferred_picks(s, n)[i],
            )->0 < n),
        forall|i: int, j: int|
            0 <= i < j < preferred_picks(s, n).len() ==> venue_rank(#[trigger] preferred_picks(s, n)[i])->0
                < venue_rank(#[trigger] preferred_picks(s, n)[j])->0,
        preferred_picks(s, n).len() == 0 ==> forall|k: int, q: int|
            0 <= k < n && 0 <= q < s.len() ==> !has_mode(#[trigger] s[q], #[trigger] preferred_mode(k)),
    decreases n,
{
    if n > 0 {
        lemma_picks_ranked(s, (n - 1) as nat);
        let r = preferred_picks(s, (n - 1) as nat);
        let m = preferred_mode(n - 1);
        lemma_first_mode_from(s, m, 0);
        match first_mode_from(s, m, 0) {
            Some(i) => {
                lemma_preferred_rank(s[i], n - 1);
                let p = r.push(s[i]);
                assert(preferred_picks(s, n) == p);
                assert forall|a: int| 0 <= a < p.len() implies (venue_rank(#[trigger] p[a]) is Some && venue_rank(p[a])->0 < n) by {
                    if a < r.len() {
                        assert(p[a] == r[a]);
                    }
                }
                assert forall|a: int, b: int| 0 <= a < b < p.len() implies venue_rank(#[trigger] p[a])->0 < venue_rank(
                    #[trigger] p[b],
                )->0 by {
                    assert(p[a] == r[a]);
                    if b < r.len() {
                        assert(p[b] == r[b]);
                    }
                }
            },
            None => {
                assert(preferred_picks(s, n) == r);
                assert forall|k: int, q: int| 0 <= k < n && 0 <= q < s.len() && r.len() == 0 implies !has_mode(
                    #[trigger] s[q],
                    #[trigger] preferred_mode(k),
                ) by {
                    if k == n - 1 {
                    }
                }
            },
        }
    }
}

proof fn lemma_non_preferred_unranked(s: Seq<VideoFormat>)
    ensures
        forall|i: int| 0 <= i < non_preferred(s).len() ==> venue_rank(#[trigger] non_preferred(s)[i]) is None,
    decreases s.len(),
{
    if s.len() > 0 {
        lemma_non_preferred_unranked(s.drop_last());
        lemma_is_preferred_rank(s.last());
        let t = non_preferred(s.drop_last());
        if !is_preferred(s.last()) {
            assert forall|i: int| 0 <= i < non_preferred(s).len() implies venue_rank(#[trigger] non_preferred(s)[i]) is None by {
                if i < t.len() {
                    assert(non_preferred(s)[i] == t[i]);
                }
            }
        }
    }
}

/// In the mode list shown to the operator, the venue modes come first, best
/// first: a venue mode is only ever preceded by better venue modes (1080p at 60,
/// 50, 30 fps, then 720p at 60, 50, 30 fps, then 480p at 60, 30 fps).
pub proof fn law_venue_modes_lead_in_order(s: Seq<VideoFormat>)
    ensures
        forall|i: int, j: int|
            0 <= i < j < ordered_modes(s).len() && (#[trigger] venue_rank(ordered_modes(s)[j])) is Some
                ==> (#[trigger] venue_rank(ordered_modes(s)[i]) is Some && venue_rank(ordered_modes(s)[i])->0
                < venue_rank(ordered_modes(s)[j])->0),
{
    let d = dedup_spec(sort_desc(s));
    let p = preferred_picks(d, 8);
    let out = ordered_modes(s);
    lemma_picks_ranked(d, 8);
    if p.len() > 0 {
        let rest = at_most(non_preferred(d), 12);
        lemma_non_preferred_unranked(d);
        assert forall|i: int| 0 <= i < rest.len() implies venue_rank(#[trigger] rest[i]) is None by {
            assert(rest[i] == non_preferred(d)[i]);
        }
        assert(out == p + rest);
        assert forall|i: int, j: int|
            0 <= i < j < out.len() && (#[trigger] venue_rank(out[j])) is Some implies (#[trigger] venue_rank(out[i]) is Some && venue_rank(out[i])->0
                < venue_rank(out[j])->0) by {
            if j >= p.len() {
                assert(out[j] == rest[j - p.len()]);
            } else {
                assert(out[i] == p[i] && out[j] == p[j]);
            }
        }
    } else {
        let a = at_most(d, 16);
        assert(out == a);
        assert forall|i: int| 0 <= i < a.len() implies venue_rank(#[trigger] a[i]) is None by {
            assert(a[i] == d[i]);
            if venue_rank(d[i]) is Some {
                let k = venue_rank(d[i])->0;
                lemma_preferred_rank(d[i], k);
                assert(has_mode(d[i], preferred_mode(k)));
            }
        }
    }
}

} // verus!
