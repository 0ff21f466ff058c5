//! The displays the program output can use, from the monitors the windowing
//! system reports.
use vstd::prelude::*;

use crate::text::{decimal, decimal_u64, push_chars, str_chars, string_from_chars};
use crate::types::DisplayInfo;

verus! {

/// A monitor as the windowing system reports it.
#[derive(Debug)]
pub struct MonitorInfo {
    pub name: Option<String>,
    pub width: u32,
    pub height: u32,
}

/// The display assumed when no monitor can be listed.
pub fn primary_fallback() -> (r: DisplayInfo)
    ensures
        r.id == 0,
        r.name@ == "Primary Display"@,
        r.primary,
        r.width == 1920,
        r.height == 1080,
{
    DisplayInfo { id: 0, name: String::from_str("Primary Display"), primary: true, width: 1920, height: 1080 }
}

/// The text behind an optional string.
pub open spec fn opt_view(s: Option<String>) -> Option<Seq<char>> {
    match s {
        Some(t) => Some(t@),
        None => None,
    }
}

/// Display `i` made from monitor `m`: numbered by position, named after the
/// monitor (`Display i` when unnamed), primary when its name equals the primary
/// monitor's (the first monitor when no primary is known).
pub open spec fn display_from_monitor(
    i: int,
    m: MonitorInfo,
    primary_name: Option<Option<Seq<char>>>,
    d: DisplayInfo,
) -> bool {
    &&& d.id == i
    &&& d.name@ == match m.name {
        Some(n) => n@,
        None => "Display "@ + decimal(i as nat),
    }
    &&& d.primary == match primary_name {
        Some(p) => p == opt_view(m.name),
        None => i == 0,
    }
    &&& d.width == m.width as i32
    &&& d.height == m.height as i32
}

fn opt_text_eq(a: &Option<String>, b: &Option<String>) -> (r: bool)
    ensures
        r == (opt_view(*a) == opt_view(*b)),
{
    match (a, b) {
        (Some(x), Some(y)) => {
            let xv = str_chars(x.as_str());
            let yv = str_chars(y.as_str());
            crate::text::chars_eq(&xv, &yv)
        },
        (None, None) => true,
        _ => false,
    }
}

/// The displays of the monitors, in order (`primary_name`: the primary monitor's
/// name when the system reports a primary monitor).
pub fn enumerate_displays(monitors: &Vec<MonitorInfo>, primary_name: &Option<Option<String>>) -> (r: Vec<DisplayInfo>)
    requires
        monitors@.len() <= u32::MAX,
    ensures
        r@.len() == monitors@.len(),
        forall|i: int|
            0 <= i < r@.len() ==> display_from_monitor(
                i,
                monitors@[i],
                match *primary_name {
                    Some(p) => Some(opt_view(p)),
                    None => None,
                },
                #[trigger] r@[i],
            ),
{
    let mut out: Vec<DisplayInfo> = Vec::new();
    let mut i: usize = 0;
    while i < monitors.len()
        invariant
            i <= monitors@.len(),
            monitors@.len() <= u32::MAX,
            out@.len() == i,
            forall|k: int|
                0 <= k < i ==> display_from_monitor(
                    k,
                    monitors@[k],
                    match *primary_name {
                        Some(p) => Some(opt_view(p)),
                        None => None,
                    },
                    #[trigger] out@[k],
                ),
        decreases monitors@.len() - i,
    {
        let m = &monitors[i];
        let name = match &m.name {
            Some(n) => n.clone(),
            None => {
                let mut v = str_chars("Display ");
                let d = decimal_u64(i as u64);
                push_chars(&mut v, &d);
                string_from_chars(&v)
            },
        };
        let primary = match primary_name {
            Some(p) => opt_text_eq(p, &m.name),
            None => i == 0,
        };
        out.push(DisplayInfo { id: i as u32, name, primary, width: m.width as i32, height: m.height as i32 });
        i = i + 1;
    }
    out
}

/// The monitor the program window opens on: the one numbered `display_id`, else
/// the first; `None` when no monitor is listed (the system's primary is used).
pub fn program_monitor(count: usize, display_id: u32) -> (r: Option<usize>)
    ensures
        (display_id as int) < count ==> r == Some(display_id as usize),
        (display_id as int) >= count && count > 0 ==> r == Some(0usize),
        count == 0 ==> r is None,
{
    if (display_id as usize) < count {
        Some(display_id as usize)
    } else if count > 0 {
        Some(0)
    } else {
        None
    }
}

/// The program window that is open: its display, whether it is fullscreen, and
/// the native handle the video sink draws into.
#[derive(Debug)]
pub struct OpenProgramWindow {
    pub display_id: u32,
    pub fullscreen: bool,
    pub handle: usize,
}

/// The handle to reuse for a request to open the program window on `display_id`
/// (`fullscreen` or not): the open window's handle when one is open on that
/// display with the same fullscreen setting; otherwise `None`, and a new window
/// replaces any open one.
pub fn reusable_program_window(open: &Option<OpenProgramWindow>, display_id: u32, fullscreen: bool) -> (r: Option<usize>)
    ensures
        r == match *open {
            Some(w) => if w.display_id == display_id && w.fullscreen == fullscreen {
                Some(w.handle)
            } else {
                None
            },
            None => None,
        },
{
    match open {
        Some(w) => {
            if w.display_id == display_id && w.fullscreen == fullscreen {
                Some(w.handle)
            } else {
                None
            }
        },
        None => None,
    }
}

} // verus!
