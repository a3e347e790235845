//! Hotkey shortcut strings such as `"CommandOrControl+Shift+R"`: which
//! modifiers and which key they name.

use vstd::prelude::*;
use crate::text::{chars_of, same_chars, split_at_char, split_char, trim, trimmed_range};

verus! {

/// The key of a shortcut.
#[derive(Debug, Clone, Copy, PartialEq, Eq, Structural)]
pub enum HotkeyKey {
    /// `A` to `Z` (the upper-case letter).
    Letter(char),
    /// `0` to `9` (the digit character).
    Digit(char),
    /// `F1` to `F12` (the number).
    Function(u8),
}

#[derive(Debug, Clone, Copy, PartialEq, Eq, Structural)]
pub struct HotkeyModifiers {
    pub control: bool,
    pub shift: bool,
    pub alt: bool,
    pub super_key: bool,
}

/// A parsed shortcut: its modifiers and its key.
#[derive(Debug, Clone, Copy, PartialEq, Eq, Structural)]
pub struct ParsedShortcut {
    pub modifiers: HotkeyModifiers,
    pub key: HotkeyKey,
}

/// ASCII upper-casing of one character.
pub open spec fn ascii_upper(c: char) -> char {
    if 'a' <= c <= 'z' {
        ((c as u32) - 32) as char
    } else {
        c
    }
}

/// The key a part names, compared after ASCII upper-casing: a letter, a
/// digit, or `F1` to `F12`.
pub open spec fn key_named(part: Seq<char>) -> Option<HotkeyKey> {
    let u = part.map_values(|c: char| ascii_upper(c));
    if u.len() == 1 && 'A' <= u[0] <= 'Z' {
        Some(HotkeyKey::Letter(u[0]))
    } else if u.len() == 1 && '0' <= u[0] <= '9' {
        Some(HotkeyKey::Digit(u[0]))
    } else if u.len() == 2 && u[0] == 'F' && '1' <= u[1] <= '9' {
        Some(HotkeyKey::Function(((u[1] as u32) - 48) as u8))
    } else if u.len() == 3 && u[0] == 'F' && u[1] == '1' && '0' <= u[2] <= '2' {
        Some(HotkeyKey::Function(((u[2] as u32) - 38) as u8))
    } else {
        None
    }
}

/// Which modifier a part names, if any: 0 control, 1 shift, 2 alt, 3 super.
pub open spec fn modifier_named(p: Seq<char>) -> Option<u8> {
    if p == "CommandOrControl"@ || p == "Control"@ || p == "Ctrl"@ || p == "CmdOrCtrl"@ {
        Some(0)
    } else if p == "Shift"@ {
        Some(1)
    } else if p == "Alt"@ || p == "Option"@ {
        Some(2)
    } else if p == "Super"@ || p == "Meta"@ || p == "Command"@ {
        Some(3)
    } else {
        None
    }
}

pub open spec fn with_modifier(m: HotkeyModifiers, which: u8) -> HotkeyModifiers {
    if which == 0 {
        HotkeyModifiers { control: true, ..m }
    } else if which == 1 {
        HotkeyModifiers { shift: true, ..m }
    } else if which == 2 {
        HotkeyModifiers { alt: true, ..m }
    } else {
        HotkeyModifiers { super_key: true, ..m }
    }
}

pub open spec fn no_modifiers() -> HotkeyModifiers {
    HotkeyModifiers { control: false, shift: false, alt: false, super_key: false }
}

/// The modifiers and key after reading `parts` in order: each trimmed
/// part either adds a modifier or sets the key (to nothing when it names
/// none), so the last non-modifier part decides the key.
pub open spec fn read_parts(parts: Seq<Seq<char>>) -> (HotkeyModifiers, Option<HotkeyKey>)
    decreases parts.len(),
{
    if parts.len() == 0 {
        (no_modifiers(), None)
    } else {
        let (m, k) = read_parts(parts.drop_last());
        let p = trim(parts.last());
        match modifier_named(p) {
            Some(which) => (with_modifier(m, which), k),
            None => (m, key_named(p)),
        }
    }
}

/// The shortcut a string names, split at `+`; none without a key.
pub open spec fn shortcut_named(s: Seq<char>) -> Option<ParsedShortcut> {
    let (m, k) = read_parts(split_char(s, '+'));
    match k {
        Some(key) => Some(ParsedShortcut { modifiers: m, key }),
        None => None,
    }
}

fn part_is(p: &Vec<char>, lit: &str) -> (r: bool)
    ensures
        r == (p@ == lit@),
{
    let l = chars_of(lit);
    same_chars(p.as_slice(), l.as_slice())
}

fn modifier_of(p: &Vec<char>) -> (r: Option<u8>)
    ensures
        r == modifier_named(p@),
{
    if part_is(p, "CommandOrControl") || part_is(p, "Control") || part_is(p, "Ctrl") || part_is(
        p,
        "CmdOrCtrl",
    ) {
        Some(0)
    } else if part_is(p, "Shift") {
        Some(1)
    } else if part_is(p, "Alt") || part_is(p, "Option") {
        Some(2)
    } else if part_is(p, "Super") || part_is(p, "Meta") || part_is(p, "Command") {
        Some(3)
    } else {
        None
    }
}

fn upper(c: char) -> (r: char)
    ensures
        r == ascii_upper(c),
{
    if 'a' <= c && c <= 'z' {
        let u = c as u8;
        let l = (u - 32) as char;
        assert(l == ((c as u32) - 32) as char);
        l
    } else {
        c
    }
}

fn key_of(p: &Vec<char>) -> (r: Option<HotkeyKey>)
    ensures
        r == key_named(p@),
{
    let ghost u = p@.map_values(|c: char| ascii_upper(c));
    let n = p.len();
    if n == 0 || n > 3 {
        return None;
    }
    let a = upper(p[0]);
    proof {
        assert(u[0] == a);
    }
    if n == 1 {
        if 'A' <= a && a <= 'Z' {
            return Some(HotkeyKey::Letter(a));
        } else if '0' <= a && a <= '9' {
            return Some(HotkeyKey::Digit(a));
        } else {
            return None;
        }
    }
    let b = upper(p[1]);
    proof {
        assert(u[1] == b);
    }
    if a != 'F' {
        return None;
    }
    if n == 2 {
        if '1' <= b && b <= '9' {
            return Some(HotkeyKey::Function(((b as u32) - 48) as u8));
        } else {
            return None;
        }
    }
    let c = upper(p[2]);
    proof {
        assert(u[2] == c);
    }
    if b == '1' && '0' <= c && c <= '2' {
        Some(HotkeyKey::Function(((c as u32) - 38) as u8))
    } else {
        None
    }
}

/// Parse a shortcut string: `+`-separated parts, each trimmed; modifier
/// names (case-sensitive) add modifiers, any other part names the key
/// (case-insensitive letters, digits, `F1`-`F12`).
pub fn parse_hotkey_shortcut(s: &str) -> (r: Option<ParsedShortcut>)
    ensures
        r == shortcut_named(s@),
{
    let cs = chars_of(s);
    let parts = split_at_char(cs.as_slice(), '+');
    let ghost ps = parts@.map_values(|l: Vec<char>| l@);
    let mut mods = HotkeyModifiers { control: false, shift: false, alt: false, super_key: false };
    let mut key: Option<HotkeyKey> = None;
    let mut i: usize = 0;
    while i < parts.len()
        invariant
            i <= parts@.len(),
            ps == parts@.map_values(|l: Vec<char>| l@),
            (mods, key) == read_parts(ps.take(i as int)),
        decreases parts@.len() - i,
    {
        let part = &parts[i];
        let p = trimmed_range(part.as_slice(), 0, part.len());
        proof {
            assert(part@.subrange(0, part@.len() as int) == part@);
            let t = ps.take(i + 1);
            assert(t.drop_last() == ps.take(i as int));
            assert(t.last() == part@);
        }
        match modifier_of(&p) {
            Some(which) => {
                if which == 0 {
                    mods.control = true;
                } else if which == 1 {
                    mods.shift = true;
                } else if which == 2 {
                    mods.alt = true;
                } else {
                    mods.super_key = true;
                }
            },
            None => {
                key = key_of(&p);
            },
        }
        i = i + 1;
    }
    proof {
        assert(ps.take(parts@.len() as int) == ps);
    }
    match key {
        Some(k) => Some(ParsedShortcut { modifiers: mods, key: k }),
        None => None,
    }
}

} // verus!
