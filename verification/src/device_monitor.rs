//! Capture devices as GStreamer's device monitor and sysfs report them: stable
//! ids, the sysfs fallback list, and merging without duplicates.
use vstd::prelude::*;

use crate::devices::CaptureDevice;
use crate::text::{chars_eq, chars_start_with_str, push_chars, seq_starts_with, str_chars, string_from_chars};

verus! {

/// `c` kept when it is an ASCII letter or digit, else replaced by `_`.
pub open spec fn slug_char(c: char) -> char {
    if ('a' <= c && c <= 'z') || ('A' <= c && c <= 'Z') || ('0' <= c && c <= '9') {
        c
    } else {
        '_'
    }
}

/// A display name made safe for an id.
pub open spec fn slug_spec(name: Seq<char>) -> Seq<char> {
    name.map_values(|c: char| slug_char(c))
}

fn slug(name: &Vec<char>) -> (r: Vec<char>)
    ensures
        r@ == slug_spec(name@),
{
    let mut out: Vec<char> = Vec::new();
    let mut i: usize = 0;
    while i < name.len()
        invariant
            i <= name@.len(),
            out@ == slug_spec(name@.take(i as int)),
        decreases name@.len() - i,
    {
        let c = name[i];
        let k = if ('a' <= c && c <= 'z') || ('A' <= c && c <= 'Z') || ('0' <= c && c <= '9') {
            c
        } else {
            '_'
        };
        out.push(k);
        proof {
            assert(slug_spec(name@.take(i + 1)) =~= slug_spec(name@.take(i as int)).push(slug_char(c)));
        }
        i = i + 1;
    }
    assert(name@.take(name@.len() as int) =~= name@);
    out
}

/// The id of a monitored device: its `/dev/video*` node when it reports one, else
/// a slug of its display name; the backend is always `v4l2`.
pub open spec fn stable_id_spec(device_path: Option<Seq<char>>, display_name: Seq<char>) -> Seq<char> {
    match device_path {
        Some(p) => if seq_starts_with(p, "/dev/video"@) {
            "v4l2:"@ + p
        } else {
            "v4l2:"@ + slug_spec(display_name)
        },
        None => "v4l2:"@ + slug_spec(display_name),
    }
}

/// The text behind an optional string slice.
pub open spec fn opt_str(s: Option<&str>) -> Option<Seq<char>> {
    match s {
        Some(t) => Some(t@),
        None => None,
    }
}

pub fn stable_id_from_device(device_path: Option<&str>, display_name: &str) -> (r: (String, String))
    ensures
        r.0@ == stable_id_spec(opt_str(device_path), display_name@),
        r.1@ == "v4l2"@,
{
    let mut id = str_chars("v4l2:");
    let mut done = false;
    match device_path {
        Some(p) => {
            let pv = str_chars(p);
            if chars_start_with_str(&pv, "/dev/video") {
                push_chars(&mut id, &pv);
                done = true;
            }
        },
        None => {},
    }
    if !done {
        let nv = str_chars(display_name);
        let s = slug(&nv);
        push_chars(&mut id, &s);
    }
    (string_from_chars(&id), String::from_str("v4l2"))
}

/// A device from the monitor, unless its display name is empty.
pub fn device_to_capture(device_path: Option<&str>, display_name: &str) -> (r: Option<CaptureDevice>)
    ensures
        display_name@.len() == 0 ==> r is None,
        display_name@.len() > 0 ==> (r matches Some(d) && d.id@ == stable_id_spec(
            opt_str(device_path),
            display_name@,
        ) && d.display_name@ == display_name@ && d.backend@ == "v4l2"@),
{
    if display_name.unicode_len() == 0 {
        return None;
    }
    let (id, backend) = stable_id_from_device(device_path, display_name);
    Some(CaptureDevice { id, display_name: String::from_str(display_name), backend })
}

/// The sysfs fallback: each `video*` entry as `v4l2:/dev/NAME`, named after its
/// card (or the entry name when the card is unknown). Each entry is its name and
/// its card name, if read.
pub open spec fn sysfs_devices_spec(entries: Seq<(String, Option<String>)>) -> Seq<(Seq<char>, Seq<char>)>
    decreases entries.len(),
{
    if entries.len() == 0 {
        Seq::empty()
    } else {
        let rest = sysfs_devices_spec(entries.drop_last());
        let (name, card) = entries.last();
        if seq_starts_with(name@, "video"@) {
            rest.push(
                (
                    "v4l2:"@ + ("/dev/"@ + name@),
                    match card {
                        Some(c) => c@,
                        None => name@,
                    },
                ),
            )
        } else {
            rest
        }
    }
}

/// The id and display name of a device.
pub open spec fn device_view(d: CaptureDevice) -> (Seq<char>, Seq<char>) {
    (d.id@, d.display_name@)
}

pub fn probe_v4l2_sysfs(entries: Vec<(String, Option<String>)>) -> (r: Vec<CaptureDevice>)
    ensures
        r@.map_values(|d: CaptureDevice| device_view(d)) == sysfs_devices_spec(entries@),
        forall|i: int| 0 <= i < r@.len() ==> (#[trigger] r@[i]).backend@ == "v4l2"@,
{
    let ghost orig = entries@;
    let mut out: Vec<CaptureDevice> = Vec::new();
    for entry in it: entries.into_iter()
        invariant
            it.seq() == orig,
            out@.map_values(|d: CaptureDevice| device_view(d)) == sysfs_devices_spec(orig.take(it.index() as int)),
            forall|i: int| 0 <= i < out@.len() ==> (#[trigger] out@[i]).backend@ == "v4l2"@,
    {
        proof {
            assert(orig.take(it.index() + 1).drop_last() =~= orig.take(it.index() as int));
            assert(orig.take(it.index() + 1).last() == entry);
        }
        let (name, card) = entry;
        let nv = str_chars(name.as_str());
        if chars_start_with_str(&nv, "video") {
            let mut id = str_chars("v4l2:/dev/");
            push_chars(&mut id, &nv);
            let display_name = match card {
                Some(c) => c,
                None => name,
            };
            let ghost before = out@;
            out.push(CaptureDevice { id: string_from_chars(&id), display_name, backend: String::from_str("v4l2") });
            proof {
                reveal_strlit("v4l2:/dev/");
                reveal_strlit("v4l2:");
                reveal_strlit("/dev/");
                assert("v4l2:/dev/"@ + nv@ =~= "v4l2:"@ + ("/dev/"@ + nv@));
                assert(out@.map_values(|d: CaptureDevice| device_view(d)) =~= before.map_values(
                    |d: CaptureDevice| device_view(d),
                ).push(device_view(out@.last())));
            }
        }
    }
    assert(orig.take(orig.len() as int) =~= orig);
    out
}

/// `more` appended to `devices`, skipping each whose id is already present
/// (including ones added earlier from `more`).
pub open spec fn merge_unique_spec(devices: Seq<CaptureDevice>, more: Seq<CaptureDevice>) -> Seq<CaptureDevice>
    decreases more.len(),
{
    if more.len() == 0 {
        devices
    } else {
        let m = merge_unique_spec(devices, more.drop_last());
        if exists|i: int| 0 <= i < m.len() && (#[trigger] m[i]).id@ == more.last().id@ {
            m
        } else {
            m.push(more.last())
        }
    }
}

fn id_present(devices: &Vec<CaptureDevice>, id: &Vec<char>) -> (r: bool)
    ensures
        r == exists|i: int| 0 <= i < devices@.len() && (#[trigger] devices@[i]).id@ == id@,
{
    let mut i: usize = 0;
    while i < devices.len()
        invariant
            i <= devices@.len(),
            forall|k: int| 0 <= k < i ==> (#[trigger] devices@[k]).id@ != id@,
        decreases devices@.len() - i,
    {
        let v = str_chars(devices[i].id.as_str());
        if chars_eq(&v, id) {
            return true;
        }
        i = i + 1;
    }
    false
}

/// Adds the devices of `more` whose ids are not present yet.
pub fn merge_unique(devices: &mut Vec<CaptureDevice>, more: Vec<CaptureDevice>)
    ensures
        final(devices)@ == merge_unique_spec(old(devices)@, more@),
{
    let ghost orig = more@;
    let ghost start = devices@;
    for d in it: more.into_iter()
        invariant
            it.seq() == orig,
            devices@ == merge_unique_spec(start, orig.take(it.index() as int)),
    {
        proof {
            assert(orig.take(it.index() + 1).drop_last() =~= orig.take(it.index() as int));
            assert(orig.take(it.index() + 1).last() == d);
        }
        let id = str_chars(d.id.as_str());
        if !id_present(devices, &id) {
            devices.push(d);
        }
    }
    assert(orig.take(orig.len() as int) =~= orig);
}

/// Merging never yields two devices with the same id, provided the devices merged
/// into have distinct ids.
pub proof fn law_merge_keeps_ids_unique(devices: Seq<CaptureDevice>, more: Seq<CaptureDevice>)
    requires
        forall|i: int, j: int| 0 <= i < j < devices.len() ==> (#[trigger] devices[i]).id@ != (#[trigger] devices[j]).id@,
    ensures
        ({
            let m = merge_unique_spec(devices, more);
            forall|i: int, j: int| 0 <= i < j < m.len() ==> (#[trigger] m[i]).id@ != (#[trigger] m[j]).id@
        }),
    decreases more.len(),
{
    if more.len() > 0 {
        law_merge_keeps_ids_unique(devices, more.drop_last());
        let m0 = merge_unique_spec(devices, more.drop_last());
        let m = merge_unique_spec(devices, more);
        if !(exists|i: int| 0 <= i < m0.len() && (#[trigger] m0[i]).id@ == more.last().id@) {
            assert forall|i: int, j: int| 0 <= i < j < m.len() implies (#[trigger] m[i]).id@ != (#[trigger] m[j]).id@ by {
                if j < m0.len() {
                    assert(m[i] == m0[i] && m[j] == m0[j]);
                } else {
                    assert(m[i] == m0[i]);
                }
            }
        }
    }
}

} // verus!
