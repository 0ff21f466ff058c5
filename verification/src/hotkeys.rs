//! Parsing of keyboard hotkey bindings such as `M`, `Space`, `F5`, `Ctrl+R` or
//! `Cmd+Shift+M`.
use vstd::prelude::*;

use crate::text::{
    lemma_index_of_range,
    ascii_lower, ascii_upper, char_ascii_lower, is_ascii_text, chars_eq_str, find_char, index_of, slice_chars, str_chars,
    to_uppercase_chars, trim, trim_chars, unicode_uppercase,
};

verus! {

/// Keys a hotkey can be bound to.
#[derive(Debug, Clone, Copy, PartialEq, Eq, Structural, Hash)]
pub enum KeyCode {
    KeyA, KeyB, KeyC, KeyD, KeyE, KeyF, KeyG, KeyH, KeyI, KeyJ, KeyK, KeyL, KeyM,
    KeyN, KeyO, KeyP, KeyQ, KeyR, KeyS, KeyT, KeyU, KeyV, KeyW, KeyX, KeyY, KeyZ,
    Digit0, Digit1, Digit2, Digit3, Digit4, Digit5, Digit6, Digit7, Digit8, Digit9,
    Space, Escape, Enter, Tab, Backspace, Delete,
    ArrowUp, ArrowDown, ArrowLeft, ArrowRight,
    F1, F2, F3, F4, F5, F6, F7, F8, F9, F10, F11, F12,
}

/// Modifier keys held with a hotkey.
#[derive(Debug, Clone, Copy, PartialEq, Eq, Structural, Hash)]
pub struct HotkeyModifiers {
    pub control: bool,
    pub alt: bool,
    pub shift: bool,
    pub super_key: bool,
}

/// A parsed hotkey: its modifiers (none when no modifier is held) and key.
#[derive(Debug, Clone, Copy, PartialEq, Eq, Structural, Hash)]
pub struct HotkeySpec {
    pub modifiers: Option<HotkeyModifiers>,
    pub code: KeyCode,
}

/// Operator actions that hotkeys trigger.
#[derive(Debug, Clone, Copy, PartialEq, Eq, Structural, Hash)]
pub enum HotkeyAction {
    Mark,
    Replay,
    ReplayLast,
    ReturnLive,
    ClearMark,
}

/// The key a single upper-case letter or digit names (`C`, `L`, `M` and `R` are
/// matched by name before this table is consulted).
pub open spec fn letter_or_digit_spec(c: char) -> Option<KeyCode> {
    if c == 'A' { Some(KeyCode::KeyA) }
    else if c == 'B' { Some(KeyCode::KeyB) }
    else if c == 'D' { Some(KeyCode::KeyD) }
    else if c == 'E' { Some(KeyCode::KeyE) }
    else if c == 'F' { Some(KeyCode::KeyF) }
    else if c == 'G' { Some(KeyCode::KeyG) }
    else if c == 'H' { Some(KeyCode::KeyH) }
    else if c == 'I' { Some(KeyCode::KeyI) }
    else if c == 'J' { Some(KeyCode::KeyJ) }
    else if c == 'K' { Some(KeyCode::KeyK) }
    else if c == 'N' { Some(KeyCode::KeyN) }
    else if c == 'O' { Some(KeyCode::KeyO) }
    else if c == 'P' { Some(KeyCode::KeyP) }
    else if c == 'Q' { Some(KeyCode::KeyQ) }
    else if c == 'S' { Some(KeyCode::KeyS) }
    else if c == 'T' { Some(KeyCode::KeyT) }
    else if c == 'U' { Some(KeyCode::KeyU) }
    else if c == 'V' { Some(KeyCode::KeyV) }
    else if c == 'W' { Some(KeyCode::KeyW) }
    else if c == 'X' { Some(KeyCode::KeyX) }
    else if c == 'Y' { Some(KeyCode::KeyY) }
    else if c == 'Z' { Some(KeyCode::KeyZ) }
    else if c == '0' { Some(KeyCode::Digit0) }
    else if c == '1' { Some(KeyCode::Digit1) }
    else if c == '2' { Some(KeyCode::Digit2) }
    else if c == '3' { Some(KeyCode::Digit3) }
    else if c == '4' { Some(KeyCode::Digit4) }
    else if c == '5' { Some(KeyCode::Digit5) }
    else if c == '6' { Some(KeyCode::Digit6) }
    else if c == '7' { Some(KeyCode::Digit7) }
    else if c == '8' { Some(KeyCode::Digit8) }
    else if c == '9' { Some(KeyCode::Digit9) }
    else { None }
}

pub fn letter_or_digit_code(c: char) -> (r: Option<KeyCode>)
    ensures
        r == letter_or_digit_spec(c),
{
    if c == 'A' { Some(KeyCode::KeyA) }
    else if c == 'B' { Some(KeyCode::KeyB) }
    else if c == 'D' { Some(KeyCode::KeyD) }
    else if c == 'E' { Some(KeyCode::KeyE) }
    else if c == 'F' { Some(KeyCode::KeyF) }
    else if c == 'G' { Some(KeyCode::KeyG) }
    else if c == 'H' { Some(KeyCode::KeyH) }
    else if c == 'I' { Some(KeyCode::KeyI) }
    else if c == 'J' { Some(KeyCode::KeyJ) }
    else if c == 'K' { Some(KeyCode::KeyK) }
    else if c == 'N' { Some(KeyCode::KeyN) }
    else if c == 'O' { Some(KeyCode::KeyO) }
    else if c == 'P' { Some(KeyCode::KeyP) }
    else if c == 'Q' { Some(KeyCode::KeyQ) }
    else if c == 'S' { Some(KeyCode::KeyS) }
    else if c == 'T' { Some(KeyCode::KeyT) }
    else if c == 'U' { Some(KeyCode::KeyU) }
    else if c == 'V' { Some(KeyCode::KeyV) }
    else if c == 'W' { Some(KeyCode::KeyW) }
    else if c == 'X' { Some(KeyCode::KeyX) }
    else if c == 'Y' { Some(KeyCode::KeyY) }
    else if c == 'Z' { Some(KeyCode::KeyZ) }
    else if c == '0' { Some(KeyCode::Digit0) }
    else if c == '1' { Some(KeyCode::Digit1) }
    else if c == '2' { Some(KeyCode::Digit2) }
    else if c == '3' { Some(KeyCode::Digit3) }
    else if c == '4' { Some(KeyCode::Digit4) }
    else if c == '5' { Some(KeyCode::Digit5) }
    else if c == '6' { Some(KeyCode::Digit6) }
    else if c == '7' { Some(KeyCode::Digit7) }
    else if c == '8' { Some(KeyCode::Digit8) }
    else if c == '9' { Some(KeyCode::Digit9) }
    else { None }
}

/// The key an upper-cased key name stands for: a named key, or a single ASCII
/// letter or digit.
pub open spec fn named_key_spec(u: Seq<char>) -> Option<KeyCode> {
    if u == "M"@ { Some(KeyCode::KeyM) }
    else if u == "R"@ { Some(KeyCode::KeyR) }
    else if u == "L"@ { Some(KeyCode::KeyL) }
    else if u == "C"@ { Some(KeyCode::KeyC) }
    else if u == "SPACE"@ { Some(KeyCode::Space) }
    else if u == "ESCAPE"@ || u == "ESC"@ { Some(KeyCode::Escape) }
    else if u == "ENTER"@ || u == "RETURN"@ { Some(KeyCode::Enter) }
    else if u == "TAB"@ { Some(KeyCode::Tab) }
    else if u == "BACKSPACE"@ { Some(KeyCode::Backspace) }
    else if u == "DELETE"@ || u == "DEL"@ { Some(KeyCode::Delete) }
    else if u == "UP"@ { Some(KeyCode::ArrowUp) }
    else if u == "DOWN"@ { Some(KeyCode::ArrowDown) }
    else if u == "LEFT"@ { Some(KeyCode::ArrowLeft) }
    else if u == "RIGHT"@ { Some(KeyCode::ArrowRight) }
    else if u == "F1"@ { Some(KeyCode::F1) }
    else if u == "F2"@ { Some(KeyCode::F2) }
    else if u == "F3"@ { Some(KeyCode::F3) }
    else if u == "F4"@ { Some(KeyCode::F4) }
    else if u == "F5"@ { Some(KeyCode::F5) }
    else if u == "F6"@ { Some(KeyCode::F6) }
    else if u == "F7"@ { Some(KeyCode::F7) }
    else if u == "F8"@ { Some(KeyCode::F8) }
    else if u == "F9"@ { Some(KeyCode::F9) }
    else if u == "F10"@ { Some(KeyCode::F10) }
    else if u == "F11"@ { Some(KeyCode::F11) }
    else if u == "F12"@ { Some(KeyCode::F12) }
    else if u.len() == 1 && (u[0] as u32) < 128 { letter_or_digit_spec(u[0]) }
    else { None }
}

fn named_key(u: &Vec<char>) -> (r: Option<KeyCode>)
    ensures
        r == named_key_spec(u@),
{
    if chars_eq_str(u, "M") { Some(KeyCode::KeyM) }
    else if chars_eq_str(u, "R") { Some(KeyCode::KeyR) }
    else if chars_eq_str(u, "L") { Some(KeyCode::KeyL) }
    else if chars_eq_str(u, "C") { Some(KeyCode::KeyC) }
    else if chars_eq_str(u, "SPACE") { Some(KeyCode::Space) }
    else if chars_eq_str(u, "ESCAPE") || chars_eq_str(u, "ESC") { Some(KeyCode::Escape) }
    else if chars_eq_str(u, "ENTER") || chars_eq_str(u, "RETURN") { Some(KeyCode::Enter) }
    else if chars_eq_str(u, "TAB") { Some(KeyCode::Tab) }
    else if chars_eq_str(u, "BACKSPACE") { Some(KeyCode::Backspace) }
    else if chars_eq_str(u, "DELETE") || chars_eq_str(u, "DEL") { Some(KeyCode::Delete) }
    else if chars_eq_str(u, "UP") { Some(KeyCode::ArrowUp) }
    else if chars_eq_str(u, "DOWN") { Some(KeyCode::ArrowDown) }
    else if chars_eq_str(u, "LEFT") { Some(KeyCode::ArrowLeft) }
    else if chars_eq_str(u, "RIGHT") { Some(KeyCode::ArrowRight) }
    else if chars_eq_str(u, "F1") { Some(KeyCode::F1) }
    else if chars_eq_str(u, "F2") { Some(KeyCode::F2) }
    else if chars_eq_str(u, "F3") { Some(KeyCode::F3) }
    else if chars_eq_str(u, "F4") { Some(KeyCode::F4) }
    else if chars_eq_str(u, "F5") { Some(KeyCode::F5) }
    else if chars_eq_str(u, "F6") { Some(KeyCode::F6) }
    else if chars_eq_str(u, "F7") { Some(KeyCode::F7) }
    else if chars_eq_str(u, "F8") { Some(KeyCode::F8) }
    else if chars_eq_str(u, "F9") { Some(KeyCode::F9) }
    else if chars_eq_str(u, "F10") { Some(KeyCode::F10) }
    else if chars_eq_str(u, "F11") { Some(KeyCode::F11) }
    else if chars_eq_str(u, "F12") { Some(KeyCode::F12) }
    else if u.len() == 1 && (u[0] as u32) < 128 { letter_or_digit_code(u[0]) }
    else { None }
}

/// Maps a key name (any case) to its key.
pub fn key_name_to_code(name: &str) -> (r: Option<KeyCode>)
    ensures
        r == named_key_spec(unicode_uppercase(name@)),
        is_ascii_text(name@) ==> r == named_key_spec(name@.map_values(|c: char| ascii_upper(c))),
{
    let v = str_chars(name);
    let upper = to_uppercase_chars(&v);
    named_key(&upper)
}

/// The pieces of `s` between occurrences of `c` (what `str::split` yields).
pub open spec fn split_char(s: Seq<char>, c: char) -> Seq<Seq<char>>
    decreases s.len(),
{
    match index_of(s, c) {
        None => seq![s],
        Some(k) => {
            proof {
                lemma_index_of_range(s, c);
            }
            if 0 <= k < s.len() {
                seq![s.subrange(0, k)] + split_char(s.subrange(k + 1, s.len() as int), c)
            } else {
                seq![s]
            }
        },
    }
}

/// The trimmed, non-empty parts of `segs`, in order.
pub open spec fn trimmed_parts(segs: Seq<Seq<char>>) -> Seq<Seq<char>>
    decreases segs.len(),
{
    if segs.len() == 0 {
        Seq::empty()
    } else {
        let rest = trimmed_parts(segs.drop_last());
        let t = trim(segs.last());
        if t.len() > 0 {
            rest.push(t)
        } else {
            rest
        }
    }
}

/// ASCII lower-casing of a text.
pub open spec fn ascii_lowercase(s: Seq<char>) -> Seq<char> {
    s.map_values(|c: char| ascii_lower(c))
}

/// Which modifier a lower-cased part names: 1 control, 2 alt, 3 shift, 4 super,
/// 0 none.
pub open spec fn modifier_kind(lower: Seq<char>) -> int {
    if lower == "ctrl"@ || lower == "control"@ {
        1
    } else if lower == "alt"@ || lower == "option"@ {
        2
    } else if lower == "shift"@ {
        3
    } else if lower == "super"@ || lower == "cmd"@ || lower == "meta"@ || lower == "command"@ {
        4
    } else {
        0
    }
}

/// The modifiers named among `parts`.
pub open spec fn modifiers_of(parts: Seq<Seq<char>>) -> HotkeyModifiers
    decreases parts.len(),
{
    if parts.len() == 0 {
        HotkeyModifiers { control: false, alt: false, shift: false, super_key: false }
    } else {
        let m = modifiers_of(parts.drop_last());
        let k = modifier_kind(ascii_lowercase(parts.last()));
        HotkeyModifiers {
            control: m.control || k == 1,
            alt: m.alt || k == 2,
            shift: m.shift || k == 3,
            super_key: m.super_key || k == 4,
        }
    }
}

/// The last part that is not a modifier name.
pub open spec fn key_token_of(parts: Seq<Seq<char>>) -> Option<Seq<char>>
    decreases parts.len(),
{
    if parts.len() == 0 {
        None
    } else if modifier_kind(ascii_lowercase(parts.last())) == 0 {
        Some(parts.last())
    } else {
        key_token_of(parts.drop_last())
    }
}

/// What `parse_hotkey_spec` yields for `s`: split at `+`, trimmed, empty parts
/// dropped; modifier names collected; the key is the last other part (else the
/// last part).
pub open spec fn hotkey_spec_of(s: Seq<char>) -> Option<HotkeySpec> {
    let parts = trimmed_parts(split_char(s, '+'));
    if parts.len() == 0 {
        None
    } else {
        let key = match key_token_of(parts) {
            Some(t) => t,
            None => parts.last(),
        };
        let m = modifiers_of(parts);
        match named_key_spec(unicode_uppercase(key)) {
            None => None,
            Some(code) => Some(
                HotkeySpec {
                    modifiers: if !m.control && !m.alt && !m.shift && !m.super_key {
                        None
                    } else {
                        Some(m)
                    },
                    code,
                },
            ),
        }
    }
}

fn ascii_lowercase_chars(v: &Vec<char>) -> (r: Vec<char>)
    ensures
        r@ == ascii_lowercase(v@),
{
    let mut out: Vec<char> = Vec::new();
    let mut i: usize = 0;
    while i < v.len()
        invariant
            i <= v.len(),
            out@ == ascii_lowercase(v@.take(i as int)),
        decreases v.len() - i,
    {
        out.push(char_ascii_lower(v[i]));
        i = i + 1;
        assert(ascii_lowercase(v@.take(i as int)) =~= ascii_lowercase(v@.take((i - 1) as int)).push(
            ascii_lower(v@[i - 1]),
        ));
    }
    assert(v@.take(i as int) =~= v@);
    out
}

fn modifier_kind_exec(lower: &Vec<char>) -> (r: u8)
    ensures
        r as int == modifier_kind(lower@),
{
    if chars_eq_str(lower, "ctrl") || chars_eq_str(lower, "control") {
        1
    } else if chars_eq_str(lower, "alt") || chars_eq_str(lower, "option") {
        2
    } else if chars_eq_str(lower, "shift") {
        3
    } else if chars_eq_str(lower, "super") || chars_eq_str(lower, "cmd") || chars_eq_str(lower, "meta")
        || chars_eq_str(lower, "command") {
        4
    } else {
        0
    }
}

fn split_trimmed(v: &Vec<char>, c: char) -> (r: Vec<Vec<char>>)
    ensures
        r@.map_values(|p: Vec<char>| p@) == trimmed_parts(split_char(v@, c)),
{
    let mut parts: Vec<Vec<char>> = Vec::new();
    let mut rest = slice_chars(v, 0, v.len());
    let ghost mut done: Seq<Seq<char>> = Seq::empty();
    assert(rest@ =~= v@);
    loop
        invariant
            split_char(v@, c) == done + split_char(rest@, c),
            parts@.map_values(|p: Vec<char>| p@) == trimmed_parts(done),
        decreases rest@.len(),
    {
        proof {
            lemma_index_of_range(rest@, c);
        }
        match find_char(&rest, c) {
            Some(k) => {
                let seg = slice_chars(&rest, 0, k);
                let next = slice_chars(&rest, k + 1, rest.len());
                let t = trim_chars(&seg);
                proof {
                    assert(split_char(rest@, c) == seq![seg@] + split_char(next@, c));
                    assert(done + split_char(rest@, c) =~= done.push(seg@) + split_char(next@, c));
                    assert(done.push(seg@).drop_last() =~= done);
                    done = done.push(seg@);
                }
                if t.len() > 0 {
                    parts.push(t);
                }
                assert(parts@.map_values(|p: Vec<char>| p@) =~= trimmed_parts(done));
                rest = next;
            },
            None => {
                let t = trim_chars(&rest);
                proof {
                    assert(split_char(rest@, c) == seq![rest@]);
                    assert(done.push(rest@).drop_last() =~= done);
                    assert(split_char(v@, c) =~= done.push(rest@));
                }
                if t.len() > 0 {
                    parts.push(t);
                }
                assert(parts@.map_values(|p: Vec<char>| p@) =~= trimmed_parts(done.push(rest@)));
                return parts;
            },
        }
    }
}

/// Parses a hotkey binding such as `M`, `Space`, `F5`, `Ctrl+R` or `Cmd+Shift+M`.
pub fn parse_hotkey_spec(spec: &str) -> (r: Option<HotkeySpec>)
    ensures
        r == hotkey_spec_of(spec@),
{
    let v = str_chars(spec);
    let parts = split_trimmed(&v, '+');
    let ghost ps = parts@.map_values(|p: Vec<char>| p@);
    if parts.len() == 0 {
        return None;
    }
    let mut control = false;
    let mut alt = false;
    let mut shift = false;
    let mut super_key = false;
    let mut key_index: Option<usize> = None;
    let mut i: usize = 0;
    while i < parts.len()
        invariant
            i <= parts.len(),
            ps == parts@.map_values(|p: Vec<char>| p@),
            modifiers_of(ps.take(i as int)) == (HotkeyModifiers { control, alt, shift, super_key }),
            match key_index {
                Some(k) => k < i && key_token_of(ps.take(i as int)) == Some(ps[k as int]),
                None => key_token_of(ps.take(i as int)) is None,
            },
        decreases parts.len() - i,
    {
        proof {
            assert(ps.take(i + 1).drop_last() =~= ps.take(i as int));
            assert(ps.take(i + 1).last() == ps[i as int]);
        }
        let lower = ascii_lowercase_chars(&parts[i]);
        let kind = modifier_kind_exec(&lower);
        if kind == 1 {
            control = true;
        } else if kind == 2 {
            alt = true;
        } else if kind == 3 {
            shift = true;
        } else if kind == 4 {
            super_key = true;
        } else {
            key_index = Some(i);
        }
        i = i + 1;
    }
    proof {
        assert(ps.take(i as int) =~= ps);
    }
    let key: &Vec<char> = match key_index {
        Some(k) => &parts[k],
        None => &parts[parts.len() - 1],
    };
    let upper = to_uppercase_chars(key);
    match named_key(&upper) {
        None => None,
        Some(code) => {
            let modifiers = if !control && !alt && !shift && !super_key {
                None
            } else {
                Some(HotkeyModifiers { control, alt, shift, super_key })
            };
            Some(HotkeySpec { modifiers, code })
        },
    }
}

/// The actions in the order their bindings are registered.
pub open spec fn action_order() -> Seq<HotkeyAction> {
    seq![
        HotkeyAction::Mark,
        HotkeyAction::Replay,
        HotkeyAction::ReplayLast,
        HotkeyAction::ReturnLive,
        HotkeyAction::ClearMark,
    ]
}

/// The bindings of `acts`, in order: each action whose configured key is not
/// empty, with the parse of that key (`None` when unrecognized).
pub open spec fn bindings_from(cfg: &crate::config::HotkeyConfig, acts: Seq<HotkeyAction>) -> Seq<
    (HotkeyAction, Option<HotkeySpec>),
>
    decreases acts.len(),
{
    if acts.len() == 0 {
        Seq::empty()
    } else {
        let rest = bindings_from(cfg, acts.drop_last());
        let a = acts.last();
        if binding_text(cfg, a).len() == 0 {
            rest
        } else {
            rest.push((a, hotkey_spec_of(binding_text(cfg, a))))
        }
    }
}

/// The bindings to register, in order: each non-empty configured key with its
/// action and its parse (`None` when unrecognized).
pub fn hotkey_bindings(cfg: &crate::config::HotkeyConfig) -> (r: Vec<(HotkeyAction, Option<HotkeySpec>)>)
    ensures
        r@ == bindings_from(cfg, action_order()),
{
    let mut out: Vec<(HotkeyAction, Option<HotkeySpec>)> = Vec::new();
    let specs: [(HotkeyAction, &str); 5] = [
        (HotkeyAction::Mark, cfg.mark.as_str()),
        (HotkeyAction::Replay, cfg.replay.as_str()),
        (HotkeyAction::ReplayLast, cfg.replay_last.as_str()),
        (HotkeyAction::ReturnLive, cfg.return_live.as_str()),
        (HotkeyAction::ClearMark, cfg.clear_mark.as_str()),
    ];
    let mut i: usize = 0;
    while i < 5
        invariant
            i <= 5,
            forall|j: int| 0 <= j < 5 ==> (#[trigger] specs@[j]).0 == action_order()[j],
            forall|j: int| 0 <= j < 5 ==> (#[trigger] specs@[j]).1@ == binding_text(cfg, specs@[j].0),
            out@ == bindings_from(cfg, action_order().take(i as int)),
        decreases 5 - i,
    {
        proof {
            assert(action_order().take(i + 1).drop_last() =~= action_order().take(i as int));
            assert(action_order().take(i + 1).last() == action_order()[i as int]);
        }
        let (action, text) = specs[i];
        if !text.is_empty() {
            out.push((action, parse_hotkey_spec(text)));
        }
        i = i + 1;
    }
    assert(action_order().take(5) =~= action_order());
    out
}

/// The action registered for hotkey `id` in `table`; a later registration of the
/// same id replaces an earlier one.
pub open spec fn action_for_spec(table: Seq<(u32, HotkeyAction)>, id: u32) -> Option<HotkeyAction>
    decreases table.len(),
{
    if table.len() == 0 {
        None
    } else if table.last().0 == id {
        Some(table.last().1)
    } else {
        action_for_spec(table.drop_last(), id)
    }
}

/// The action a hotkey event triggers: only presses of a registered hotkey count.
pub fn action_for_event(table: &Vec<(u32, HotkeyAction)>, id: u32, pressed: bool) -> (r: Option<HotkeyAction>)
    ensures
        r == (if pressed {
            action_for_spec(table@, id)
        } else {
            None
        }),
{
    if !pressed {
        return None;
    }
    let mut i: usize = table.len();
    assert(table@.take(i as int) =~= table@);
    while i > 0
        invariant
            pressed,
            i <= table@.len(),
            action_for_spec(table@, id) == action_for_spec(table@.take(i as int), id),
        decreases i,
    {
        proof {
            assert(table@.take(i as int).drop_last() =~= table@.take(i - 1));
            assert(table@.take(i as int).last() == table@[i - 1]);
        }
        if table[i - 1].0 == id {
            let e = table[i - 1];
            assert(e == table@[i - 1]);
            return Some(e.1);
        }
        i = i - 1;
    }
    proof {
        assert(table@.take(0) =~= Seq::<(u32, HotkeyAction)>::empty());
    }
    None
}

/// The configured binding text of `action`.
pub open spec fn binding_text(cfg: &crate::config::HotkeyConfig, action: HotkeyAction) -> Seq<char> {
    match action {
        HotkeyAction::Mark => cfg.mark@,
        HotkeyAction::Replay => cfg.replay@,
        HotkeyAction::ReplayLast => cfg.replay_last@,
        HotkeyAction::ReturnLive => cfg.return_live@,
        HotkeyAction::ClearMark => cfg.clear_mark@,
    }
}

/// The character printed on a letter or digit key (none for the other keys).
pub open spec fn key_label(k: KeyCode) -> Option<char> {
    match k {
        KeyCode::KeyA => Some('A'),
        KeyCode::KeyB => Some('B'),
        KeyCode::KeyC => Some('C'),
        KeyCode::KeyD => Some('D'),
        KeyCode::KeyE => Some('E'),
        KeyCode::KeyF => Some('F'),
        KeyCode::KeyG => Some('G'),
        KeyCode::KeyH => Some('H'),
        KeyCode::KeyI => Some('I'),
        KeyCode::KeyJ => Some('J'),
        KeyCode::KeyK => Some('K'),
        KeyCode::KeyL => Some('L'),
        KeyCode::KeyM => Some('M'),
        KeyCode::KeyN => Some('N'),
        KeyCode::KeyO => Some('O'),
        KeyCode::KeyP => Some('P'),
        KeyCode::KeyQ => Some('Q'),
        KeyCode::KeyR => Some('R'),
        KeyCode::KeyS => Some('S'),
        KeyCode::KeyT => Some('T'),
        KeyCode::KeyU => Some('U'),
        KeyCode::KeyV => Some('V'),
        KeyCode::KeyW => Some('W'),
        KeyCode::KeyX => Some('X'),
        KeyCode::KeyY => Some('Y'),
        KeyCode::KeyZ => Some('Z'),
        KeyCode::Digit0 => Some('0'),
        KeyCode::Digit1 => Some('1'),
        KeyCode::Digit2 => Some('2'),
        KeyCode::Digit3 => Some('3'),
        KeyCode::Digit4 => Some('4'),
        KeyCode::Digit5 => Some('5'),
        KeyCode::Digit6 => Some('6'),
        KeyCode::Digit7 => Some('7'),
        KeyCode::Digit8 => Some('8'),
        KeyCode::Digit9 => Some('9'),
        _ => None,
    }
}

/// The name of a letter or digit key is the character it carries: that
/// one-character name (upper case for letters) names exactly that key.
pub proof fn law_key_named_by_its_label(k: KeyCode)
    requires
        key_label(k) is Some,
    ensures
        named_key_spec(seq![key_label(k)->0]) == Some(k),
{
    reveal_strlit("M");
    reveal_strlit("R");
    reveal_strlit("L");
    reveal_strlit("C");
    reveal_strlit("SPACE");
    reveal_strlit("ESCAPE");
    reveal_strlit("ESC");
    reveal_strlit("ENTER");
    reveal_strlit("RETURN");
    reveal_strlit("TAB");
    reveal_strlit("BACKSPACE");
    reveal_strlit("DELETE");
    reveal_strlit("DEL");
    reveal_strlit("UP");
    reveal_strlit("DOWN");
    reveal_strlit("LEFT");
    reveal_strlit("RIGHT");
    reveal_strlit("F1");
    reveal_strlit("F2");
    reveal_strlit("F3");
    reveal_strlit("F4");
    reveal_strlit("F5");
    reveal_strlit("F6");
    reveal_strlit("F7");
    reveal_strlit("F8");
    reveal_strlit("F9");
    reveal_strlit("F10");
    reveal_strlit("F11");
    reveal_strlit("F12");
    let c = key_label(k)->0;
    let u = seq![c];
    assert(u.len() == 1 && u[0] == c);
    if c == 'M' {
        assert(u =~= "M"@);
    } else if c == 'R' {
        assert(u =~= "R"@);
    } else if c == 'L' {
        assert(u =~= "L"@);
    } else if c == 'C' {
        assert(u =~= "C"@);
    }
}

/// Different letter or digit keys have different one-character names.
pub proof fn law_key_labels_distinct(k1: KeyCode, k2: KeyCode)
    requires
        key_label(k1) is Some,
        key_label(k2) is Some,
        k1 != k2,
    ensures
        key_label(k1) != key_label(k2),
        named_key_spec(seq![key_label(k1)->0]) != named_key_spec(seq![key_label(k2)->0]),
{
    law_key_named_by_its_label(k1);
    law_key_named_by_its_label(k2);
}

/// A key name of one letter, in either case, names the letter's key, and one of
/// a digit names the digit's key.
pub proof fn law_key_name_of_one_char(k: KeyCode, c: char)
    requires
        key_label(k) == Some(ascii_upper(c)),
    ensures
        is_ascii_text(seq![c]),
        named_key_spec(seq![c].map_values(|x: char| ascii_upper(x))) == Some(k),
{
    assert(seq![c].map_values(|x: char| ascii_upper(x)) =~= seq![ascii_upper(c)]);
    law_key_named_by_its_label(k);
    assert((c as u32) < 128) by {
        if 'a' <= c && c <= 'z' {
        } else {
            assert(ascii_upper(c) == c);
        }
    }
}

/// The name written on a key that is not a letter or digit, in upper case.
pub open spec fn special_key_name(k: KeyCode) -> Option<Seq<char>> {
    match k {
        KeyCode::Space => Some("SPACE"@),
        KeyCode::Escape => Some("ESCAPE"@),
        KeyCode::Enter => Some("ENTER"@),
        KeyCode::Tab => Some("TAB"@),
        KeyCode::Backspace => Some("BACKSPACE"@),
        KeyCode::Delete => Some("DELETE"@),
        KeyCode::ArrowUp => Some("UP"@),
        KeyCode::ArrowDown => Some("DOWN"@),
        KeyCode::ArrowLeft => Some("LEFT"@),
        KeyCode::ArrowRight => Some("RIGHT"@),
        KeyCode::F1 => Some("F1"@),
        KeyCode::F2 => Some("F2"@),
        KeyCode::F3 => Some("F3"@),
        KeyCode::F4 => Some("F4"@),
        KeyCode::F5 => Some("F5"@),
        KeyCode::F6 => Some("F6"@),
        KeyCode::F7 => Some("F7"@),
        KeyCode::F8 => Some("F8"@),
        KeyCode::F9 => Some("F9"@),
        KeyCode::F10 => Some("F10"@),
        KeyCode::F11 => Some("F11"@),
        KeyCode::F12 => Some("F12"@),
        _ => None,
    }
}

proof fn lemma_key_name_literals()
    ensures
        "M"@.len() == 1 && "M"@[0] == 'M',
        "R"@.len() == 1 && "R"@[0] == 'R',
        "L"@.len() == 1 && "L"@[0] == 'L',
        "C"@.len() == 1 && "C"@[0] == 'C',
        "SPACE"@.len() == 5 && "SPACE"@[0] == 'S',
        "ESCAPE"@.len() == 6 && "ESCAPE"@[0] == 'E',
        "ESC"@.len() == 3 && "ESC"@[0] == 'E',
        "ENTER"@.len() == 5 && "ENTER"@[0] == 'E',
        "RETURN"@.len() == 6 && "RETURN"@[0] == 'R',
        "TAB"@.len() == 3 && "TAB"@[0] == 'T',
        "BACKSPACE"@.len() == 9 && "BACKSPACE"@[0] == 'B',
        "DELETE"@.len() == 6 && "DELETE"@[0] == 'D',
        "DEL"@.len() == 3 && "DEL"@[0] == 'D',
        "UP"@.len() == 2 && "UP"@[0] == 'U',
        "DOWN"@.len() == 4 && "DOWN"@[0] == 'D',
        "LEFT"@.len() == 4 && "LEFT"@[0] == 'L',
        "RIGHT"@.len() == 5 && "RIGHT"@[0] == 'R',
        "F1"@.len() == 2 && "F1"@[0] == 'F',
        "F1"@[1] == '1',
        "F2"@.len() == 2 && "F2"@[0] == 'F',
        "F2"@[1] == '2',
        "F3"@.len() == 2 && "F3"@[0] == 'F',
        "F3"@[1] == '3',
        "F4"@.len() == 2 && "F4"@[0] == 'F',
        "F4"@[1] == '4',
        "F5"@.len() == 2 && "F5"@[0] == 'F',
        "F5"@[1] == '5',
        "F6"@.len() == 2 && "F6"@[0] == 'F',
        "F6"@[1] == '6',
        "F7"@.len() == 2 && "F7"@[0] == 'F',
        "F7"@[1] == '7',
        "F8"@.len() == 2 && "F8"@[0] == 'F',
        "F8"@[1] == '8',
        "F9"@.len() == 2 && "F9"@[0] == 'F',
        "F9"@[1] == '9',
        "F10"@.len() == 3 && "F10"@[0] == 'F',
        "F10"@[1] == '1',
        "F10"@[2] == '0',
        "F11"@.len() == 3 && "F11"@[0] == 'F',
        "F11"@[1] == '1',
        "F11"@[2] == '1',
        "F12"@.len() == 3 && "F12"@[0] == 'F',
        "F12"@[1] == '1',
        "F12"@[2] == '2',
{
    reveal_strlit("M");
    reveal_strlit("R");
    reveal_strlit("L");
    reveal_strlit("C");
    reveal_strlit("SPACE");
    reveal_strlit("ESCAPE");
    reveal_strlit("ESC");
    reveal_strlit("ENTER");
    reveal_strlit("RETURN");
    reveal_strlit("TAB");
    reveal_strlit("BACKSPACE");
    reveal_strlit("DELETE");
    reveal_strlit("DEL");
    reveal_strlit("UP");
    reveal_strlit("DOWN");
    reveal_strlit("LEFT");
    reveal_strlit("RIGHT");
    reveal_strlit("F1");
    reveal_strlit("F2");
    reveal_strlit("F3");
    reveal_strlit("F4");
    reveal_strlit("F5");
    reveal_strlit("F6");
    reveal_strlit("F7");
    reveal_strlit("F8");
    reveal_strlit("F9");
    reveal_strlit("F10");
    reveal_strlit("F11");
    reveal_strlit("F12");
}

/// A key that is not a letter or digit is named by the word written on it, and
/// that word names no other key; `ESC`, `RETURN` and `DEL` name the same keys as
/// `ESCAPE`, `ENTER` and `DELETE`.
pub proof fn law_special_key_named_by_its_name(k: KeyCode)
    requires
        special_key_name(k) is Some,
    ensures
        named_key_spec(special_key_name(k)->0) == Some(k),
        k == KeyCode::Escape ==> named_key_spec("ESC"@) == Some(k),
        k == KeyCode::Enter ==> named_key_spec("RETURN"@) == Some(k),
        k == KeyCode::Delete ==> named_key_spec("DEL"@) == Some(k),
{
    lemma_key_name_literals();
}

} // verus!
