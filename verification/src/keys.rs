//! Shortcut key resolution.
//!
//! A shortcut arrives from the frontend as a list of modifier names plus
//! one key name.  Names are matched case-insensitively — Unicode
//! lowercasing, as `str::to_lowercase` defines it — modifier names
//! against a fixed synonym table with unknown ones silently ignored,
//! key names against a fixed table (letters, digits, F1–F12 and a few
//! named keys) with an unknown key name an error.  Registration and
//! unregistration both go through `resolve`, so equal inputs always
//! yield the equal binding.

use vstd::prelude::*;
use vstd::string::StrSliceExecFns;
use crate::text::{lower_of, lowercase, str_eq};

verus! {

/// Canonical code of the key part of a binding.
#[derive(Clone, Copy, PartialEq, Eq, Structural, Debug)]
pub enum KeyCode {
    KeyA,
    KeyB,
    KeyC,
    KeyD,
    KeyE,
    KeyF,
    KeyG,
    KeyH,
    KeyI,
    KeyJ,
    KeyK,
    KeyL,
    KeyM,
    KeyN,
    KeyO,
    KeyP,
    KeyQ,
    KeyR,
    KeyS,
    KeyT,
    KeyU,
    KeyV,
    KeyW,
    KeyX,
    KeyY,
    KeyZ,
    Digit0,
    Digit1,
    Digit2,
    Digit3,
    Digit4,
    Digit5,
    Digit6,
    Digit7,
    Digit8,
    Digit9,
    F1,
    F2,
    F3,
    F4,
    F5,
    F6,
    F7,
    F8,
    F9,
    F10,
    F11,
    F12,
    Space,
    Enter,
    Escape,
    Tab,
}

/// The modifier keys held in a binding.
#[derive(Clone, Copy, PartialEq, Eq, Structural, Debug)]
pub struct ModSet {
    pub ctrl: bool,
    pub shift: bool,
    pub alt: bool,
    pub meta: bool,
}

/// A resolved shortcut: modifier set plus canonical key code.
#[derive(Clone, Copy, PartialEq, Eq, Structural, Debug)]
pub struct KeyBinding {
    pub mods: ModSet,
    pub code: KeyCode,
}

/// Resolution fails only on an unknown key name, which the error carries.
#[derive(Debug)]
pub enum ResolveError {
    UnknownKey(String),
}

/// The code of a single-character key name (already case-folded).
pub open spec fn single_code(c: char) -> Option<KeyCode> {
    match c {
        'a' => Some(KeyCode::KeyA),
        'b' => Some(KeyCode::KeyB),
        'c' => Some(KeyCode::KeyC),
        'd' => Some(KeyCode::KeyD),
        'e' => Some(KeyCode::KeyE),
        'f' => Some(KeyCode::KeyF),
        'g' => Some(KeyCode::KeyG),
        'h' => Some(KeyCode::KeyH),
        'i' => Some(KeyCode::KeyI),
        'j' => Some(KeyCode::KeyJ),
        'k' => Some(KeyCode::KeyK),
        'l' => Some(KeyCode::KeyL),
        'm' => Some(KeyCode::KeyM),
        'n' => Some(KeyCode::KeyN),
        'o' => Some(KeyCode::KeyO),
        'p' => Some(KeyCode::KeyP),
        'q' => Some(KeyCode::KeyQ),
        'r' => Some(KeyCode::KeyR),
        's' => Some(KeyCode::KeyS),
        't' => Some(KeyCode::KeyT),
        'u' => Some(KeyCode::KeyU),
        'v' => Some(KeyCode::KeyV),
        'w' => Some(KeyCode::KeyW),
        'x' => Some(KeyCode::KeyX),
        'y' => Some(KeyCode::KeyY),
        'z' => Some(KeyCode::KeyZ),
        '0' => Some(KeyCode::Digit0),
        '1' => Some(KeyCode::Digit1),
        '2' => Some(KeyCode::Digit2),
        '3' => Some(KeyCode::Digit3),
        '4' => Some(KeyCode::Digit4),
        '5' => Some(KeyCode::Digit5),
        '6' => Some(KeyCode::Digit6),
        '7' => Some(KeyCode::Digit7),
        '8' => Some(KeyCode::Digit8),
        '9' => Some(KeyCode::Digit9),
        _ => None,
    }
}

/// The code of `f` followed by one digit (F1 through F9).
pub open spec fn fkey_code(c: char) -> Option<KeyCode> {
    match c {
        '1' => Some(KeyCode::F1),
        '2' => Some(KeyCode::F2),
        '3' => Some(KeyCode::F3),
        '4' => Some(KeyCode::F4),
        '5' => Some(KeyCode::F5),
        '6' => Some(KeyCode::F6),
        '7' => Some(KeyCode::F7),
        '8' => Some(KeyCode::F8),
        '9' => Some(KeyCode::F9),
        _ => None,
    }
}

/// The fixed key-name table, applied to the lowercased name.
pub open spec fn key_code_of(s: Seq<char>) -> Option<KeyCode> {
    let f = lower_of(s);
    if f.len() == 1 {
        single_code(f[0])
    } else if f.len() == 2 && f[0] == 'f' {
        fkey_code(f[1])
    } else if f == seq!['f', '1', '0'] {
        Some(KeyCode::F10)
    } else if f == seq!['f', '1', '1'] {
        Some(KeyCode::F11)
    } else if f == seq!['f', '1', '2'] {
        Some(KeyCode::F12)
    } else if f == seq!['t', 'a', 'b'] {
        Some(KeyCode::Tab)
    } else if f == seq!['s', 'p', 'a', 'c', 'e'] {
        Some(KeyCode::Space)
    } else if f == seq!['e', 'n', 't', 'e', 'r'] {
        Some(KeyCode::Enter)
    } else if f == seq!['e', 's', 'c', 'a', 'p', 'e'] {
        Some(KeyCode::Escape)
    } else {
        None
    }
}

/// How one modifier name changes the modifier set: a synonym of a known
/// modifier, up to case, sets its flag; anything else leaves the set
/// alone.
pub open spec fn spec_apply_modifier(m: ModSet, name: Seq<char>) -> ModSet {
    let f = lower_of(name);
    if f == "ctrl"@ || f == "control"@ {
        ModSet { ctrl: true, shift: m.shift, alt: m.alt, meta: m.meta }
    } else if f == "shift"@ {
        ModSet { ctrl: m.ctrl, shift: true, alt: m.alt, meta: m.meta }
    } else if f == "alt"@ || f == "option"@ {
        ModSet { ctrl: m.ctrl, shift: m.shift, alt: true, meta: m.meta }
    } else if f == "meta"@ || f == "cmd"@ || f == "super"@ {
        ModSet { ctrl: m.ctrl, shift: m.shift, alt: m.alt, meta: true }
    } else {
        m
    }
}

/// The modifier set named by a list of modifier names, applied in order.
pub open spec fn spec_mods(names: Seq<Seq<char>>) -> ModSet
    decreases names.len(),
{
    if names.len() == 0 {
        ModSet { ctrl: false, shift: false, alt: false, meta: false }
    } else {
        spec_apply_modifier(spec_mods(names.drop_last()), names.last())
    }
}

/// What `resolve` yields: `None` exactly when the key name is unknown.
pub open spec fn spec_resolve(names: Seq<Seq<char>>, key: Seq<char>) -> Option<KeyBinding> {
    match key_code_of(key) {
        Some(code) => Some(KeyBinding { mods: spec_mods(names), code }),
        None => None,
    }
}

/// Looks one key name up in the fixed table, case-insensitively.
pub fn parse_key_code(key: &str) -> (r: Result<KeyCode, ResolveError>)
    ensures
        match key_code_of(key@) {
            Some(code) => r == Ok::<KeyCode, ResolveError>(code),
            None => r matches Err(ResolveError::UnknownKey(k)) && k@ == key@,
        },
{
    let folded = lowercase(key);
    let f = folded.as_str();
    let n = f.unicode_len();
    if n == 1 {
        let c = f.get_char(0);
        proof {
            assert(lower_of(key@) =~= seq![f@[0]]);
        }
        let r = match c {
            'a' => Some(KeyCode::KeyA),
            'b' => Some(KeyCode::KeyB),
            'c' => Some(KeyCode::KeyC),
            'd' => Some(KeyCode::KeyD),
            'e' => Some(KeyCode::KeyE),
            'f' => Some(KeyCode::KeyF),
            'g' => Some(KeyCode::KeyG),
            'h' => Some(KeyCode::KeyH),
            'i' => Some(KeyCode::KeyI),
            'j' => Some(KeyCode::KeyJ),
            'k' => Some(KeyCode::KeyK),
            'l' => Some(KeyCode::KeyL),
            'm' => Some(KeyCode::KeyM),
            'n' => Some(KeyCode::KeyN),
            'o' => Some(KeyCode::KeyO),
            'p' => Some(KeyCode::KeyP),
            'q' => Some(KeyCode::KeyQ),
            'r' => Some(KeyCode::KeyR),
            's' => Some(KeyCode::KeyS),
            't' => Some(KeyCode::KeyT),
            'u' => Some(KeyCode::KeyU),
            'v' => Some(KeyCode::KeyV),
            'w' => Some(KeyCode::KeyW),
            'x' => Some(KeyCode::KeyX),
            'y' => Some(KeyCode::KeyY),
            'z' => Some(KeyCode::KeyZ),
            '0' => Some(KeyCode::Digit0),
            '1' => Some(KeyCode::Digit1),
            '2' => Some(KeyCode::Digit2),
            '3' => Some(KeyCode::Digit3),
            '4' => Some(KeyCode::Digit4),
            '5' => Some(KeyCode::Digit5),
            '6' => Some(KeyCode::Digit6),
            '7' => Some(KeyCode::Digit7),
            '8' => Some(KeyCode::Digit8),
            '9' => Some(KeyCode::Digit9),
            _ => None,
        };
        match r {
            Some(code) => Ok(code),
            None => Err(ResolveError::UnknownKey(key.to_owned())),
        }
    } else if n == 2 {
        let c0 = f.get_char(0);
        let c1 = f.get_char(1);
        proof {
            assert(lower_of(key@) =~= seq![f@[0], f@[1]]);
        }
        if c0 == 'f' {
            let r = match c1 {
                '1' => Some(KeyCode::F1),
                '2' => Some(KeyCode::F2),
                '3' => Some(KeyCode::F3),
                '4' => Some(KeyCode::F4),
                '5' => Some(KeyCode::F5),
                '6' => Some(KeyCode::F6),
                '7' => Some(KeyCode::F7),
                '8' => Some(KeyCode::F8),
                '9' => Some(KeyCode::F9),
                _ => None,
            };
            match r {
                Some(code) => Ok(code),
                None => Err(ResolveError::UnknownKey(key.to_owned())),
            }
        } else {
            Err(ResolveError::UnknownKey(key.to_owned()))
        }
    } else if n == 3 {
        let c0 = f.get_char(0);
        let c1 = f.get_char(1);
        let c2 = f.get_char(2);
        proof {
            assert(lower_of(key@) =~= seq![f@[0], f@[1], f@[2]]);
        }
        if c0 == 'f' && c1 == '1' && c2 == '0' {
            Ok(KeyCode::F10)
        } else if c0 == 'f' && c1 == '1' && c2 == '1' {
            Ok(KeyCode::F11)
        } else if c0 == 'f' && c1 == '1' && c2 == '2' {
            Ok(KeyCode::F12)
        } else if c0 == 't' && c1 == 'a' && c2 == 'b' {
            Ok(KeyCode::Tab)
        } else {
            Err(ResolveError::UnknownKey(key.to_owned()))
        }
    } else if n == 5 {
        let c0 = f.get_char(0);
        let c1 = f.get_char(1);
        let c2 = f.get_char(2);
        let c3 = f.get_char(3);
        let c4 = f.get_char(4);
        proof {
            assert(lower_of(key@) =~= seq![f@[0], f@[1], f@[2], f@[3], f@[4]]);
        }
        if c0 == 's' && c1 == 'p' && c2 == 'a' && c3 == 'c' && c4 == 'e' {
            Ok(KeyCode::Space)
        } else if c0 == 'e' && c1 == 'n' && c2 == 't' && c3 == 'e' && c4 == 'r' {
            Ok(KeyCode::Enter)
        } else {
            Err(ResolveError::UnknownKey(key.to_owned()))
        }
    } else if n == 6 {
        let c0 = f.get_char(0);
        let c1 = f.get_char(1);
        let c2 = f.get_char(2);
        let c3 = f.get_char(3);
        let c4 = f.get_char(4);
        let c5 = f.get_char(5);
        proof {
            assert(lower_of(key@) =~= seq![f@[0], f@[1], f@[2], f@[3], f@[4], f@[5]]);
        }
        if c0 == 'e' && c1 == 's' && c2 == 'c' && c3 == 'a' && c4 == 'p' && c5 == 'e' {
            Ok(KeyCode::Escape)
        } else {
            Err(ResolveError::UnknownKey(key.to_owned()))
        }
    } else {
        Err(ResolveError::UnknownKey(key.to_owned()))
    }
}

/// Applies one modifier name to the set.
fn apply_modifier(m: ModSet, name: &str) -> (r: ModSet)
    ensures
        r == spec_apply_modifier(m, name@),
{
    let folded = lowercase(name);
    let f = folded.as_str();
    if str_eq(f, "ctrl") || str_eq(f, "control") {
        ModSet { ctrl: true, shift: m.shift, alt: m.alt, meta: m.meta }
    } else if str_eq(f, "shift") {
        ModSet { ctrl: m.ctrl, shift: true, alt: m.alt, meta: m.meta }
    } else if str_eq(f, "alt") || str_eq(f, "option") {
        ModSet { ctrl: m.ctrl, shift: m.shift, alt: true, meta: m.meta }
    } else if str_eq(f, "meta") || str_eq(f, "cmd") || str_eq(f, "super") {
        ModSet { ctrl: m.ctrl, shift: m.shift, alt: m.alt, meta: true }
    } else {
        m
    }
}

/// Resolves modifier names plus a key name into a binding.  The same
/// inputs always resolve to the same binding, so registering and later
/// unregistering a shortcut go through one table.
pub fn resolve(modifiers: &Vec<String>, key: &str) -> (r: Result<KeyBinding, ResolveError>)
    ensures
        match spec_resolve(modifiers.deep_view(), key@) {
            Some(kb) => r == Ok::<KeyBinding, ResolveError>(kb),
            None => r matches Err(ResolveError::UnknownKey(k)) && k@ == key@,
        },
{
    let code = match parse_key_code(key) {
        Ok(code) => code,
        Err(e) => {
            return Err(e);
        },
    };
    let ghost names = modifiers.deep_view();
    let mut m = ModSet { ctrl: false, shift: false, alt: false, meta: false };
    let mut i: usize = 0;
    while i < modifiers.len()
        invariant
            0 <= i <= modifiers.len(),
            names == modifiers.deep_view(),
            names.len() == modifiers.len(),
            m == spec_mods(names.take(i as int)),
        decreases modifiers.len() - i,
    {
        m = apply_modifier(m, modifiers[i].as_str());
        proof {
            assert(names.take(i + 1 as int).drop_last() =~= names.take(i as int));
            assert(names.take(i + 1 as int).last() == names[i as int]);
        }
        i += 1;
    }
    proof {
        assert(names.take(names.len() as int) =~= names);
    }
    Ok(KeyBinding { mods: m, code })
}

/// The state a global-shortcut trigger arrives in.
#[derive(Clone, Copy, PartialEq, Eq, Structural, Debug)]
pub enum ShortcutState {
    Pressed,
    Released,
}

/// Decides what a triggered shortcut sends to the frontend: its id on a
/// press, nothing on a release.
pub fn shortcut_emission(state: ShortcutState, shortcut_id: String) -> (r: Option<String>)
    ensures
        state == ShortcutState::Pressed ==> (r matches Some(id) && id@ == shortcut_id@),
        state != ShortcutState::Pressed ==> r is None,
{
    match state {
        ShortcutState::Pressed => Some(shortcut_id),
        ShortcutState::Released => None,
    }
}

/// The built-in command-palette shortcut: Meta+K on macOS, Ctrl+K
/// elsewhere.
pub fn palette_binding(macos: bool) -> (kb: KeyBinding)
    ensures
        kb.code == KeyCode::KeyK,
        kb.mods == (if macos {
            ModSet { ctrl: false, shift: false, alt: false, meta: true }
        } else {
            ModSet { ctrl: true, shift: false, alt: false, meta: false }
        }),
{
    if macos {
        KeyBinding {
            mods: ModSet { ctrl: false, shift: false, alt: false, meta: true },
            code: KeyCode::KeyK,
        }
    } else {
        KeyBinding {
            mods: ModSet { ctrl: true, shift: false, alt: false, meta: false },
            code: KeyCode::KeyK,
        }
    }
}

} // verus!
