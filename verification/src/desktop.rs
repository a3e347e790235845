//! Decisions of the desktop shell: what a global hotkey does in each
//! session state and which bindings get registered, how the record overlay
//! is bounded and what it shows for an input event, which window the picker
//! may select, how paths and key names are shown, what the pinned FFmpeg
//! bundle file says and what the settings page shows of FFmpeg, and how the
//! live screen and webcam previews are made.

use vstd::prelude::*;
use crate::capture::{virtual_screen, CaptureError, Frame, PixelRect};
use crate::imaging::preview_outcome;
use crate::pixels::{blacked, mirror_rgba_inplace, mirrored, painted_rect, rb_swapped, swap_rb_inplace};
use crate::control::RecordDefaults;
use crate::hotkeys::{
    bindings_view, normalize_hotkeys, normalized, HotkeyAction, HotkeyBinding, InputEvent, MouseButton,
};
use crate::overlay::MouseClickOverlay;
use crate::shortcut::{parse_hotkey_shortcut, shortcut_named, ParsedShortcut};
use crate::ipc::ShotRequest;
use crate::session::SessionState;
use crate::settings::Region;
use crate::text::{
    chars_of, eq_ignore_ascii_case, extend_chars, extend_range, find_from, find_pattern, has_prefix,
    lemma_find_from_bounds, lines_of, matches_at, same_chars, same_ignoring_ascii_case,
    split_lines, starts_with_chars, string_from, trim, trimmed_range,
};

verus! {

/// What a global hotkey makes the session do.
#[derive(Debug, Clone, Copy, PartialEq, Eq, Structural)]
pub enum HotkeyCommand {
    Start,
    Pause,
    Resume,
    Stop,
    Screenshot,
    Nothing,
}

/// The command of `action` in session state `state`: the start key starts
/// an idle session and resumes a paused one; the pause key toggles pause;
/// the stop key stops anything under way; the screenshot key always
/// shoots.
pub open spec fn command_for(action: HotkeyAction, state: SessionState) -> HotkeyCommand {
    match action {
        HotkeyAction::StartRecording => if state == SessionState::Idle {
            HotkeyCommand::Start
        } else if state == SessionState::Paused {
            HotkeyCommand::Resume
        } else {
            HotkeyCommand::Nothing
        },
        HotkeyAction::PauseRecording => if state == SessionState::Recording {
            HotkeyCommand::Pause
        } else if state == SessionState::Paused {
            HotkeyCommand::Resume
        } else {
            HotkeyCommand::Nothing
        },
        HotkeyAction::StopRecording => if state == SessionState::Recording || state
            == SessionState::Paused || state == SessionState::Starting {
            HotkeyCommand::Stop
        } else {
            HotkeyCommand::Nothing
        },
        HotkeyAction::TakeScreenshot => HotkeyCommand::Screenshot,
    }
}

/// The stop hotkey stops every session that is under way (starting,
/// recording or paused) and does nothing otherwise; it never starts, pauses
/// or resumes anything.
pub proof fn lemma_stop_hotkey_stops_active_sessions(state: SessionState)
    ensures
        (state == SessionState::Recording || state == SessionState::Paused || state
            == SessionState::Starting) ==> command_for(HotkeyAction::StopRecording, state)
            == HotkeyCommand::Stop,
        (state == SessionState::Idle || state == SessionState::Stopping) ==> command_for(
            HotkeyAction::StopRecording,
            state,
        ) == HotkeyCommand::Nothing,
{
}

/// Only the stop hotkey stops a session, and the screenshot hotkey shoots
/// in every state; the start and pause hotkeys resume a paused session.
pub proof fn lemma_hotkey_roles(action: HotkeyAction, state: SessionState)
    ensures
        command_for(action, state) == HotkeyCommand::Stop ==> action == HotkeyAction::StopRecording,
        action == HotkeyAction::TakeScreenshot ==> command_for(action, state) == HotkeyCommand::Screenshot,
        state == SessionState::Paused && (action == HotkeyAction::StartRecording || action
            == HotkeyAction::PauseRecording) ==> command_for(action, state) == HotkeyCommand::Resume,
        command_for(action, state) == HotkeyCommand::Start ==> state == SessionState::Idle,
        command_for(action, state) == HotkeyCommand::Pause ==> state == SessionState::Recording,
{
}

pub fn hotkey_command(action: HotkeyAction, state: SessionState) -> (r: HotkeyCommand)
    ensures
        r == command_for(action, state),
{
    match action {
        HotkeyAction::StartRecording => match state {
            SessionState::Idle => HotkeyCommand::Start,
            SessionState::Paused => HotkeyCommand::Resume,
            _ => HotkeyCommand::Nothing,
        },
        HotkeyAction::PauseRecording => match state {
            SessionState::Recording => HotkeyCommand::Pause,
            SessionState::Paused => HotkeyCommand::Resume,
            _ => HotkeyCommand::Nothing,
        },
        HotkeyAction::StopRecording => match state {
            SessionState::Recording | SessionState::Paused | SessionState::Starting => {
                HotkeyCommand::Stop
            },
            _ => HotkeyCommand::Nothing,
        },
        HotkeyAction::TakeScreenshot => HotkeyCommand::Screenshot,
    }
}

/// The screenshot the hotkey takes: the saved source, display (0 when none
/// is saved) and region, no window.
pub fn hotkey_shot_request(d: &RecordDefaults) -> (r: ShotRequest)
    ensures
        r == (ShotRequest {
            source: d.source,
            display_id: Some(if d.display_id is Some { d.display_id->0 } else { 0u32 }),
            window_id: None,
            region: d.region,
        }),
{
    ShotRequest {
        source: d.source,
        display_id: Some(
            match d.display_id {
                Some(id) => id,
                None => 0,
            },
        ),
        window_id: None,
        region: d.region,
    }
}

/// The area the record overlay covers: the recorded region when it is at
/// least 2x2, else the virtual screen (each side at least 2).
pub open spec fn overlay_area(region: Option<Region>) -> (i32, i32, u32, u32) {
    match region {
        Some(r) => if r.width >= 2 && r.height >= 2 {
            (r.x, r.y, r.width, r.height)
        } else {
            (0, 0, 1920, 1080)
        },
        None => (0, 0, 1920, 1080),
    }
}

pub fn overlay_bounds(region: Option<Region>) -> (r: (i32, i32, u32, u32))
    ensures
        r == overlay_area(region),
{
    if let Some(rg) = region {
        if rg.width >= 2 && rg.height >= 2 {
            return (rg.x, rg.y, rg.width, rg.height);
        }
    }
    let screen = virtual_screen();
    (
        screen.x,
        screen.y,
        if screen.width < 2 { 2 } else { screen.width },
        if screen.height < 2 { 2 } else { screen.height },
    )
}

/// Whether the point lies in the overlay area.
pub fn overlay_contains(bounds: (i32, i32, u32, u32), px: i32, py: i32) -> (r: bool)
    requires
        bounds.2 <= i32::MAX && bounds.0 + bounds.2 <= i32::MAX,
        bounds.3 <= i32::MAX && bounds.1 + bounds.3 <= i32::MAX,
    ensures
        r == (px >= bounds.0 && py >= bounds.1 && px < bounds.0 + bounds.2 && py < bounds.1
            + bounds.3),
{
    px >= bounds.0 && py >= bounds.1 && px < bounds.0 + bounds.2 as i32 && py < bounds.1
        + bounds.3 as i32
}

/// Whether the window picker may select a window under the point: it is
/// shown and not minimised, not of the skipped process, titled (but not
/// the desktop's "Program Manager"), at least 32x32, and holds the point.
pub open spec fn pickable(
    visible: bool,
    minimized: bool,
    pid: u32,
    skip_pid: Option<u32>,
    title: Seq<char>,
    rect: Option<(i32, i32, i32, i32)>,
    px: i32,
    py: i32,
) -> bool {
    &&& visible && !minimized
    &&& skip_pid != Some(pid)
    &&& trim(title).len() > 0 && title != "Program Manager"@
    &&& rect matches Some((l, t, r, b)) && r - l >= 32 && b - t >= 32 && px >= l && px < r && py
        >= t && py < b
}

pub fn is_pickable_window(
    visible: bool,
    minimized: bool,
    pid: u32,
    skip_pid: Option<u32>,
    title: &str,
    rect: Option<(i32, i32, i32, i32)>,
    px: i32,
    py: i32,
) -> (r: bool)
    ensures
        r == pickable(visible, minimized, pid, skip_pid, title@, rect, px, py),
{
    if !visible || minimized {
        return false;
    }
    if let Some(skip) = skip_pid {
        if pid == skip {
            return false;
        }
    }
    let t = chars_of(title);
    let trimmed = trimmed_range(t.as_slice(), 0, t.len());
    proof {
        assert(t@.subrange(0, t@.len() as int) == title@);
    }
    let pm = chars_of("Program Manager");
    if trimmed.len() == 0 || same_chars(t.as_slice(), pm.as_slice()) {
        return false;
    }
    match rect {
        None => false,
        Some((l, tp, rt, b)) => {
            let w: i64 = rt as i64 - l as i64;
            let h: i64 = b as i64 - tp as i64;
            if w < 32 || h < 32 {
                return false;
            }
            px >= l && px < rt && py >= tp && py < b
        },
    }
}

/// A path as the UI shows it: Win32 extended-length prefixes removed
/// (`\\?\UNC\server` becomes `\\server`; `\\?\` and `\\.\` are dropped).
pub open spec fn shown_path(p: Seq<char>) -> Seq<char> {
    if has_prefix(p, "\\\\?\\UNC\\"@) {
        "\\\\"@ + p.skip("\\\\?\\UNC\\"@.len() as int)
    } else if has_prefix(p, "\\\\?\\"@) {
        p.skip("\\\\?\\"@.len() as int)
    } else if has_prefix(p, "\\\\.\\"@) {
        p.skip("\\\\.\\"@.len() as int)
    } else {
        p
    }
}

fn strip(p: &Vec<char>, prefix: &str) -> (r: Option<Vec<char>>)
    ensures
        match r {
            Some(rest) => has_prefix(p@, prefix@) && rest@ == p@.skip(prefix@.len() as int),
            None => !has_prefix(p@, prefix@),
        },
{
    let pre = chars_of(prefix);
    if starts_with_chars(p.as_slice(), pre.as_slice()) {
        let mut rest: Vec<char> = Vec::new();
        extend_range(&mut rest, p.as_slice(), pre.len(), p.len());
        proof {
            assert(rest@ =~= p@.skip(prefix@.len() as int));
        }
        Some(rest)
    } else {
        None
    }
}

/// The text of a path as the UI shows it.
pub fn display_path(path: &str) -> (r: String)
    ensures
        r@ == shown_path(path@),
{
    let p = chars_of(path);
    if let Some(rest) = strip(&p, "\\\\?\\UNC\\") {
        let mut out = chars_of("\\\\");
        extend_chars(&mut out, rest.as_slice());
        return string_from(out.as_slice());
    }
    if let Some(rest) = strip(&p, "\\\\?\\") {
        return string_from(rest.as_slice());
    }
    if let Some(rest) = strip(&p, "\\\\.\\") {
        return string_from(rest.as_slice());
    }
    string_from(p.as_slice())
}

/// The FFmpeg bundle the release pins: its repository and tag.
#[derive(Debug, PartialEq, Eq)]
pub struct CaptoFfmpegMeta {
    pub repository: Option<String>,
    pub tag: Option<String>,
}

/// A `KEY=value` line split at its first `=`.
pub open spec fn split_eq(l: Seq<char>) -> Option<(Seq<char>, Seq<char>)> {
    match find_from(l, seq!['='], 0) {
        Some(i) => Some((l.take(i), l.skip(i + 1))),
        None => None,
    }
}

/// The repository and tag after reading `lines` in order: blank lines,
/// `#` comments and lines without `=` are skipped; a later assignment
/// wins; keys and values are trimmed.
pub open spec fn pin_values(lines: Seq<Seq<char>>) -> (Option<Seq<char>>, Option<Seq<char>>)
    decreases lines.len(),
{
    if lines.len() == 0 {
        (None, None)
    } else {
        let (repo, tag) = pin_values(lines.drop_last());
        let line = trim(lines.last());
        if line.len() == 0 || line[0] == '#' {
            (repo, tag)
        } else {
            match split_eq(line) {
                None => (repo, tag),
                Some((k, v)) => if trim(k) == "CAPTO_FFMPEG_REPO"@ {
                    (Some(trim(v)), tag)
                } else if trim(k) == "CAPTO_FFMPEG_TAG"@ {
                    (repo, Some(trim(v)))
                } else {
                    (repo, tag)
                },
            }
        }
    }
}

pub open spec fn meta_view(m: CaptoFfmpegMeta) -> (Option<Seq<char>>, Option<Seq<char>>) {
    (
        match m.repository {
            Some(s) => Some(s@),
            None => None,
        },
        match m.tag {
            Some(s) => Some(s@),
            None => None,
        },
    )
}

fn split_eq_exec(l: &Vec<char>) -> (r: Option<(Vec<char>, Vec<char>)>)
    ensures
        match r {
            Some((k, v)) => split_eq(l@) == Some((k@, v@)),
            None => split_eq(l@) is None,
        },
{
    let mut eq: Vec<char> = Vec::new();
    eq.push('=');
    proof {
        assert(eq@ =~= seq!['=']);
        lemma_find_from_bounds(l@, seq!['='], 0);
    }
    match find_pattern(l.as_slice(), eq.as_slice(), 0) {
        Some(i) => {
            proof {
                assert(matches_at(l@, seq!['='], i as int));
                assert(l@.len() == l.len());
            }
            let mut k: Vec<char> = Vec::new();
            extend_range(&mut k, l.as_slice(), 0, i);
            let mut v: Vec<char> = Vec::new();
            extend_range(&mut v, l.as_slice(), i + 1, l.len());
            proof {
                assert(k@ =~= l@.take(i as int));
                assert(v@ =~= l@.skip(i + 1));
            }
            Some((k, v))
        },
        None => None,
    }
}

fn trim_all(v: &Vec<char>) -> (r: Vec<char>)
    ensures
        r@ == trim(v@),
{
    let r = trimmed_range(v.as_slice(), 0, v.len());
    proof {
        assert(v@.subrange(0, v@.len() as int) == v@);
    }
    r
}

/// What the pinned bundle file (`KEY=value` lines) says of the FFmpeg
/// bundle: `CAPTO_FFMPEG_REPO` and `CAPTO_FFMPEG_TAG`.
pub fn parse_ffmpeg_pin(text: &str) -> (r: CaptoFfmpegMeta)
    ensures
        meta_view(r) == pin_values(lines_of(text@)),
{
    let cs = chars_of(text);
    let lines = split_lines(cs.as_slice());
    let ghost ls = lines@.map_values(|l: Vec<char>| l@);
    let mut repo: Option<Vec<char>> = None;
    let mut tag: Option<Vec<char>> = None;
    let mut i: usize = 0;
    let repo_key = chars_of("CAPTO_FFMPEG_REPO");
    let tag_key = chars_of("CAPTO_FFMPEG_TAG");
    while i < lines.len()
        invariant
            i <= lines@.len(),
            ls == lines@.map_values(|l: Vec<char>| l@),
            ls == lines_of(cs@),
            cs@ == text@,
            repo_key@ == "CAPTO_FFMPEG_REPO"@,
            tag_key@ == "CAPTO_FFMPEG_TAG"@,
            pin_values(ls.take(i as int)) == (
                match repo {
                    Some(v) => Some(v@),
                    None => None::<Seq<char>>,
                },
                match tag {
                    Some(v) => Some(v@),
                    None => None::<Seq<char>>,
                },
            ),
        decreases lines@.len() - i,
    {
        proof {
            let t = ls.take(i + 1);
            assert(t.drop_last() == ls.take(i as int));
            assert(t.last() == lines@[i as int]@);
        }
        let line = trim_all(&lines[i]);
        if line.len() > 0 && line[0] != '#' {
            if let Some((k, v)) = split_eq_exec(&line) {
                let key = trim_all(&k);
                if same_chars(key.as_slice(), repo_key.as_slice()) {
                    repo = Some(trim_all(&v));
                } else if same_chars(key.as_slice(), tag_key.as_slice()) {
                    tag = Some(trim_all(&v));
                }
            }
        }
        i = i + 1;
    }
    proof {
        assert(ls.take(lines@.len() as int) == ls);
    }
    CaptoFfmpegMeta {
        repository: match repo {
            Some(v) => Some(string_from(v.as_slice())),
            None => None,
        },
        tag: match tag {
            Some(v) => Some(string_from(v.as_slice())),
            None => None,
        },
    }
}

/// Virtual-key codes of the modifier keys (Shift, Ctrl, Alt, the Windows
/// keys, and their left/right variants).
pub open spec fn is_modifier_key(vk: u16) -> bool {
    vk == 0x10 || vk == 0x11 || vk == 0x12 || vk == 0x5B || vk == 0x5C || vk == 0xA0 || vk == 0xA1
        || vk == 0xA2 || vk == 0xA3 || vk == 0xA4 || vk == 0xA5
}

pub fn is_modifier_vk(vk: u16) -> (r: bool)
    ensures
        r == is_modifier_key(vk),
{
    vk == 0x10 || vk == 0x11 || vk == 0x12 || vk == 0x5B || vk == 0x5C || vk == 0xA0 || vk == 0xA1
        || vk == 0xA2 || vk == 0xA3 || vk == 0xA4 || vk == 0xA5
}

/// The names of the held modifiers, in the order Ctrl, Alt, Shift, Win.
pub open spec fn held_mods(ctrl: bool, alt: bool, shift: bool, win: bool) -> Seq<Seq<char>> {
    (if ctrl { seq!["Ctrl"@] } else { seq![] }) + (if alt { seq!["Alt"@] } else { seq![] }) + (if shift {
        seq!["Shift"@]
    } else {
        seq![]
    }) + (if win { seq!["Win"@] } else { seq![] })
}

/// The label the keystroke overlay shows: the held modifiers in the order
/// Ctrl, Alt, Shift, Win, then the key's name, joined with `+`; nothing
/// when the key is itself one of the held modifiers (by name, case
/// ignored).
pub open spec fn key_label_of(ctrl: bool, alt: bool, shift: bool, win: bool, name: Seq<char>) -> Option<Seq<char>> {
    let mods = held_mods(ctrl, alt, shift, win);
    if exists|i: int| 0 <= i < mods.len() && eq_ignore_ascii_case(#[trigger] mods[i], name) {
        None
    } else {
        Some(crate::text::joined(mods.push(name), seq!['+']))
    }
}

fn push_mod(parts: &mut Vec<Vec<char>>, on: bool, word: &str)
    ensures
        final(parts)@.map_values(|l: Vec<char>| l@) == old(parts)@.map_values(|l: Vec<char>| l@)
            + (if on { seq![word@] } else { seq![] }),
{
    if on {
        let ghost before = parts@.map_values(|l: Vec<char>| l@);
        parts.push(chars_of(word));
        proof {
            assert(parts@.map_values(|l: Vec<char>| l@) =~= before + seq![word@]);
        }
    } else {
        proof {
            assert(parts@.map_values(|l: Vec<char>| l@) =~= parts@.map_values(|l: Vec<char>| l@)
                + Seq::<Seq<char>>::empty());
        }
    }
}

pub fn format_key_label(ctrl: bool, alt: bool, shift: bool, win: bool, name: &str) -> (r: Option<String>)
    ensures
        match r {
            Some(s) => key_label_of(ctrl, alt, shift, win, name@) == Some(s@),
            None => key_label_of(ctrl, alt, shift, win, name@) is None,
        },
{
    let mut parts: Vec<Vec<char>> = Vec::new();
    proof {
        assert(parts@.map_values(|l: Vec<char>| l@) =~= Seq::<Seq<char>>::empty());
    }
    push_mod(&mut parts, ctrl, "Ctrl");
    push_mod(&mut parts, alt, "Alt");
    push_mod(&mut parts, shift, "Shift");
    push_mod(&mut parts, win, "Win");
    let ghost mods = parts@.map_values(|l: Vec<char>| l@);
    proof {
        assert(mods =~= held_mods(ctrl, alt, shift, win));
    }
    let n = chars_of(name);
    let mut i: usize = 0;
    while i < parts.len()
        invariant
            i <= parts@.len(),
            mods == parts@.map_values(|l: Vec<char>| l@),
            mods == held_mods(ctrl, alt, shift, win),
            n@ == name@,
            forall|k: int| 0 <= k < i ==> !eq_ignore_ascii_case(#[trigger] mods[k], name@),
        decreases parts@.len() - i,
    {
        if same_ignoring_ascii_case(parts[i].as_slice(), n.as_slice()) {
            proof {
                assert(eq_ignore_ascii_case(mods[i as int], name@));
            }
            return None;
        }
        i = i + 1;
    }
    let ghost before = parts@.map_values(|l: Vec<char>| l@);
    parts.push(n);
    proof {
        assert(parts@.map_values(|l: Vec<char>| l@) =~= mods.push(name@));
        assert(parts@.map_values(|l: Vec<char>| l@).skip(0) == mods.push(name@));
    }
    let mut plus: Vec<char> = Vec::new();
    plus.push('+');
    proof {
        assert(plus@ =~= seq!['+']);
    }
    let label = crate::text::join_parts(&parts, 0, plus.as_slice());
    Some(string_from(label.as_slice()))
}

/// The upper-case hexadecimal digit for `d < 16`.
pub open spec fn hex_digit(d: nat) -> char {
    if d < 10 {
        crate::text::digit_char(d)
    } else if d == 10 {
        'A'
    } else if d == 11 {
        'B'
    } else if d == 12 {
        'C'
    } else if d == 13 {
        'D'
    } else if d == 14 {
        'E'
    } else {
        'F'
    }
}

/// `n` in upper-case hexadecimal without leading zeros (`{:X}`).
pub open spec fn hex_upper(n: nat) -> Seq<char>
    decreases n,
{
    if n < 16 {
        seq![hex_digit(n)]
    } else {
        hex_upper(n / 16).push(hex_digit(n % 16))
    }
}

fn hex_char(d: u16) -> (c: char)
    requires
        d < 16,
    ensures
        c == hex_digit(d as nat),
{
    if d < 10 {
        let s = crate::text::decimal_string(d as u64);
        let cs = chars_of(s.as_str());
        proof {
            assert(cs@ == crate::text::decimal(d as nat));
        }
        cs[0]
    } else if d == 10 {
        'A'
    } else if d == 11 {
        'B'
    } else if d == 12 {
        'C'
    } else if d == 13 {
        'D'
    } else if d == 14 {
        'E'
    } else {
        'F'
    }
}

fn push_hex(out: &mut Vec<char>, n: u16)
    ensures
        final(out)@ == old(out)@ + hex_upper(n as nat),
    decreases n,
{
    if n < 16 {
        out.push(hex_char(n));
        proof {
            assert(final(out)@ =~= old(out)@ + hex_upper(n as nat));
        }
    } else {
        push_hex(out, n / 16);
        out.push(hex_char(n % 16));
        proof {
            assert(old(out)@ + hex_upper(n as nat) =~= old(out)@ + hex_upper((n / 16) as nat) + seq![
                hex_digit((n % 16) as nat),
            ]);
        }
    }
}

/// The name shown for a key Windows has no name for: `0x` and its
/// virtual-key code in upper-case hexadecimal.
pub fn hex_key_name(vk: u16) -> (r: String)
    ensures
        r@ == "0x"@ + hex_upper(vk as nat),
{
    let mut out = chars_of("0x");
    push_hex(&mut out, vk);
    string_from(out.as_slice())
}

/// What the settings page shows of the FFmpeg in use.
#[derive(Debug)]
pub struct FfmpegInfo {
    pub available: bool,
    /// Capto FFmpeg release tag (e.g. `v1.0.0-n9.0`).
    pub bundle_version: Option<String>,
    /// Short FFmpeg version token from `ffmpeg -version`.
    pub ffmpeg_version: Option<String>,
    /// Full first line of `ffmpeg -version` (tooltip / detail).
    pub ffmpeg_version_line: Option<String>,
    pub path: Option<String>,
    /// GitHub repo slug, e.g. `elwina/capto-ffmpeg`.
    pub repository: Option<String>,
}

/// What asking an ffmpeg binary for its version gave: the first line of
/// `-version` with the version token read from it, or the error's message.
pub enum VersionProbe {
    Line { line: String, token: Option<String> },
    Failed(String),
}

/// An ffmpeg binary that was found: the path shown for it, its version
/// probe, and the bundle metadata stored next to it, if any.
pub struct FoundFfmpeg {
    pub path: String,
    pub probe: VersionProbe,
    pub meta_near: Option<CaptoFfmpegMeta>,
}

pub open spec fn opt_text(o: Option<String>) -> Option<Seq<char>> {
    match o {
        Some(s) => Some(s@),
        None => None,
    }
}

/// The bundle metadata shown: the one next to the binary, else the one
/// among the app's resources, else the pinned one.
pub open spec fn shown_meta(
    near: Option<CaptoFfmpegMeta>,
    resource: Option<CaptoFfmpegMeta>,
    pinned: CaptoFfmpegMeta,
) -> CaptoFfmpegMeta {
    match near {
        Some(m) => m,
        None => match resource {
            Some(m) => m,
            None => pinned,
        },
    }
}

/// The FFmpeg info for the settings page. Without a binary it is not
/// available and shows the resource or pinned bundle; with one it shows
/// its path, the version token (or the whole line when no token was read,
/// or the probe's error), and the bundle metadata found nearest.
pub fn ffmpeg_info(found: Option<FoundFfmpeg>, resource: Option<CaptoFfmpegMeta>, pinned: CaptoFfmpegMeta) -> (r: FfmpegInfo)
    ensures
        match found {
            None => {
                let m = shown_meta(None, resource, pinned);
                &&& !r.available
                &&& opt_text(r.bundle_version) == opt_text(m.tag)
                &&& opt_text(r.repository) == opt_text(m.repository)
                &&& r.ffmpeg_version is None
                &&& r.ffmpeg_version_line is None
                &&& r.path is None
            },
            Some(f) => {
                let m = shown_meta(f.meta_near, resource, pinned);
                &&& r.available
                &&& opt_text(r.bundle_version) == opt_text(m.tag)
                &&& opt_text(r.repository) == opt_text(m.repository)
                &&& opt_text(r.path) == Some(f.path@)
                &&& match f.probe {
                    VersionProbe::Line { line, token } => {
                        &&& opt_text(r.ffmpeg_version) == Some(
                            match token {
                                Some(t) => t@,
                                None => line@,
                            },
                        )
                        &&& opt_text(r.ffmpeg_version_line) == Some(line@)
                    },
                    VersionProbe::Failed(e) => opt_text(r.ffmpeg_version) == Some(e@)
                        && r.ffmpeg_version_line is None,
                }
            },
        },
{
    match found {
        None => {
            let meta = match resource {
                Some(m) => m,
                None => pinned,
            };
            FfmpegInfo {
                available: false,
                bundle_version: meta.tag,
                ffmpeg_version: None,
                ffmpeg_version_line: None,
                path: None,
                repository: meta.repository,
            }
        },
        Some(f) => {
            let meta = match f.meta_near {
                Some(m) => m,
                None => match resource {
                    Some(m) => m,
                    None => pinned,
                },
            };
            match f.probe {
                VersionProbe::Line { line, token } => {
                    let shown = match token {
                        Some(t) => t,
                        None => line.clone(),
                    };
                    FfmpegInfo {
                        available: true,
                        bundle_version: meta.tag,
                        ffmpeg_version: Some(shown),
                        ffmpeg_version_line: Some(line),
                        path: Some(f.path),
                        repository: meta.repository,
                    }
                },
                VersionProbe::Failed(e) => FfmpegInfo {
                    available: true,
                    bundle_version: meta.tag,
                    ffmpeg_version: Some(e),
                    ffmpeg_version_line: None,
                    path: Some(f.path),
                    repository: meta.repository,
                },
            }
        },
    }
}

/// The bindings that get registered as global shortcuts, in order: those
/// among `bs` that are enabled and whose shortcut parses, with the parsed
/// shortcut and its text.
pub open spec fn registrable(bs: Seq<(HotkeyAction, Seq<char>, bool)>) -> Seq<(HotkeyAction, ParsedShortcut, Seq<char>)>
    decreases bs.len(),
{
    if bs.len() == 0 {
        Seq::empty()
    } else {
        let rest = registrable(bs.drop_last());
        let b = bs.last();
        if b.2 {
            match shortcut_named(b.1) {
                Some(p) => rest.push((b.0, p, b.1)),
                None => rest,
            }
        } else {
            rest
        }
    }
}

pub open spec fn registration_view(r: Seq<(HotkeyAction, ParsedShortcut, String)>) -> Seq<(HotkeyAction, ParsedShortcut, Seq<char>)> {
    r.map_values(|t: (HotkeyAction, ParsedShortcut, String)| (t.0, t.1, t.2@))
}

/// What to register for the settings' hotkeys: the normalized bindings that
/// are enabled and parse, each with its action, parsed shortcut and text
/// (the text names the shortcut when registering it fails).
pub fn hotkeys_to_register(hotkeys: Vec<HotkeyBinding>) -> (r: Vec<(HotkeyAction, ParsedShortcut, String)>)
    ensures
        registration_view(r@) == registrable(normalized(bindings_view(hotkeys@))),
{
    let mut bs = hotkeys;
    normalize_hotkeys(&mut bs);
    let ghost v = bindings_view(bs@);
    let mut out: Vec<(HotkeyAction, ParsedShortcut, String)> = Vec::new();
    let mut i: usize = 0;
    while i < bs.len()
        invariant
            i <= bs@.len(),
            v == bindings_view(bs@),
            registration_view(out@) == registrable(v.take(i as int)),
        decreases bs@.len() - i,
    {
        let b = &bs[i];
        proof {
            assert(v.take(i + 1).drop_last() == v.take(i as int));
            assert(v.take(i + 1).last() == v[i as int]);
        }
        if b.enabled {
            match parse_hotkey_shortcut(b.shortcut.as_str()) {
                Some(p) => {
                    let text = b.shortcut.clone();
                    out.push((b.action, p, text));
                    proof {
                        assert(registration_view(out@) =~= registrable(v.take(i as int)).push(
                            (b.action, p, b.shortcut@),
                        ));
                    }
                },
                None => {},
            }
        }
        i = i + 1;
    }
    proof {
        assert(v.take(bs@.len() as int) == v);
    }
    out
}

/// What the record overlay shows for an input event.
#[derive(Debug)]
pub enum OverlayEvent {
    /// A click ripple: the button's name and colour, the click's offset
    /// from the overlay's top-left corner in physical pixels, and the ripple
    /// radius (at least 8).
    Click { button: &'static str, dx: i32, dy: i32, color: String, radius: u32 },
    /// A pressed key: its label in the keystroke style (font size at least 12).
    Key { label: String, font_size: u32, color: String, background: String },
}

/// The keystroke overlay's switch and style.
#[derive(Debug)]
pub struct KeystrokeStyle {
    pub enabled: bool,
    pub font_size: u32,
    pub color: String,
    pub background: String,
}

/// The name of a mouse button and its ripple colour.
pub open spec fn button_style(b: MouseButton, c: MouseClickOverlay) -> (Seq<char>, Seq<char>) {
    match b {
        MouseButton::Left => ("left"@, c.left_color@),
        MouseButton::Right => ("right"@, c.right_color@),
        MouseButton::Middle => ("middle"@, c.middle_color@),
    }
}

/// What the record overlay shows for `ev`: a ripple for a button pressed
/// inside the overlay while click overlays are on, a key label for a key
/// pressed while keystroke overlays are on, nothing otherwise (releases
/// included).
pub fn overlay_event(ev: InputEvent, clicks: &MouseClickOverlay, keys: &KeystrokeStyle, bounds: (i32, i32, u32, u32)) -> (r: Option<OverlayEvent>)
    requires
        bounds.2 <= i32::MAX && bounds.0 + bounds.2 <= i32::MAX,
        bounds.3 <= i32::MAX && bounds.1 + bounds.3 <= i32::MAX,
    ensures
        match ev {
            InputEvent::MouseButton { button, x, y, down } => if down && clicks.enabled && x >= bounds.0
                && y >= bounds.1 && x < bounds.0 + bounds.2 && y < bounds.1 + bounds.3 {
                r matches Some(OverlayEvent::Click { button: name, dx, dy, color, radius }) && (name@,
                    color@) == button_style(button, *clicks) && dx == x - bounds.0 && dy == y
                    - bounds.1 && radius == (if clicks.radius < 8 { 8 } else { clicks.radius })
            } else {
                r is None
            },
            InputEvent::Key { label, down } => if down && keys.enabled {
                r matches Some(OverlayEvent::Key { label: l, font_size, color, background }) && l@
                    == label@ && font_size == (if keys.font_size < 12 { 12 } else { keys.font_size })
                    && color@ == keys.color@ && background@ == keys.background@
            } else {
                r is None
            },
        },
{
    match ev {
        InputEvent::MouseButton { button, x, y, down } => {
            if down && clicks.enabled && overlay_contains(bounds, x, y) {
                let (name, color): (&'static str, String) = match button {
                    MouseButton::Left => ("left", clicks.left_color.clone()),
                    MouseButton::Right => ("right", clicks.right_color.clone()),
                    MouseButton::Middle => ("middle", clicks.middle_color.clone()),
                };
                let radius = if clicks.radius < 8 { 8 } else { clicks.radius };
                Some(OverlayEvent::Click { button: name, dx: x - bounds.0, dy: y - bounds.1, color, radius })
            } else {
                None
            }
        },
        InputEvent::Key { label, down } => {
            if down && keys.enabled {
                let font_size = if keys.font_size < 12 { 12 } else { keys.font_size };
                Some(
                    OverlayEvent::Key {
                        label,
                        font_size,
                        color: keys.color.clone(),
                        background: keys.background.clone(),
                    },
                )
            } else {
                None
            }
        },
    }
}

/// `v` clamped into `lo..=hi`.
pub open spec fn clamped(v: u32, lo: u32, hi: u32) -> u32 {
    if v < lo {
        lo
    } else if v > hi {
        hi
    } else {
        v
    }
}

/// The camera the webcam tab previews: the one asked for (trimmed) when
/// that is not blank, else the configured one as a recording would take it.
pub open spec fn preview_camera(
    requested: Option<Seq<char>>,
    device_id: Option<Seq<char>>,
    device_label: Option<Seq<char>>,
) -> Option<Seq<char>> {
    match requested {
        Some(r) => if trim(r).len() > 0 {
            Some(trim(r))
        } else {
            crate::session::webcam_device_of(device_id, device_label)
        },
        None => crate::session::webcam_device_of(device_id, device_label),
    }
}

/// What the webcam tab's preview asks for: refused while a recording is
/// under way, else the camera and the capture size (the configured size
/// clamped to 160..=640 by 120..=480).
pub fn webcam_preview_plan(
    state: SessionState,
    cam_width: u32,
    cam_height: u32,
    requested: Option<&str>,
    device_id: Option<&str>,
    device_label: Option<&str>,
) -> (r: Result<(Option<String>, u32, u32), String>)
    ensures
        state != SessionState::Idle ==> (r matches Err(m) && m@ == "webcam preview paused while recording"@),
        state == SessionState::Idle ==> (r matches Ok((d, w, h)) && w == clamped(cam_width, 160, 640)
            && h == clamped(cam_height, 120, 480) && crate::audio::opt_view(d) == preview_camera(
            crate::audio::opt_str_view(requested),
            crate::audio::opt_str_view(device_id),
            crate::audio::opt_str_view(device_label),
        )),
{
    if state != SessionState::Idle {
        return Err(crate::text::owned("webcam preview paused while recording"));
    }
    let w = if cam_width < 160 { 160 } else if cam_width > 640 { 640 } else { cam_width };
    let h = if cam_height < 120 { 120 } else if cam_height > 480 { 480 } else { cam_height };
    let asked = match requested {
        Some(r) => {
            let cs = chars_of(r);
            let t = trimmed_range(cs.as_slice(), 0, cs.len());
            proof {
                assert(cs@.subrange(0, cs@.len() as int) == cs@);
            }
            if t.len() > 0 {
                Some(string_from(t.as_slice()))
            } else {
                None
            }
        },
        None => None,
    };
    let device = match asked {
        Some(a) => Some(a),
        None => crate::session::webcam_device(device_id, device_label),
    };
    Ok((device, w, h))
}

/// The webcam tab's preview JPEG of a camera frame: the frame's BGRA turned
/// to RGBA, mirrored when asked, at most 480 wide at quality 72.
pub fn webcam_preview_jpeg(frame: Frame, mirror: bool) -> (r: Result<(u32, u32, Vec<u8>), CaptureError>)
    requires
        frame.width as int * frame.height as int * 4 <= usize::MAX,
        frame.width as int * 8 <= usize::MAX,
    ensures
        ({
            let rgba = if mirror {
                mirrored(rb_swapped(frame.rgba@), frame.width as int, frame.height as int)
            } else {
                rb_swapped(frame.rgba@)
            };
            preview_outcome(r, frame.width, frame.height, rgba, 480, 72)
        }),
{
    let mut f = frame;
    swap_rb_inplace(&mut f);
    if mirror {
        mirror_rgba_inplace(&mut f);
    }
    f.preview_jpeg(480, 72)
}

/// A screen preview ready for the UI: the JPEG with its sides, the capture's
/// sides (each at least 1), its time, and the part of the capture covered by
/// Capto's own window, which was blacked out.
#[derive(Debug)]
pub struct ScreenPreview {
    pub width: u32,
    pub height: u32,
    pub source_width: u32,
    pub source_height: u32,
    pub jpeg: Vec<u8>,
    pub timestamp_ms: u64,
    pub masked: Option<PixelRect>,
}

/// Where Capto's window (`app`, on the virtual desktop) lies in a capture
/// whose content starts at `origin`: the clipped rectangle, if both are
/// known and they overlap.
pub open spec fn app_mask(fw: u32, fh: u32, app: Option<(i32, i32, u32, u32)>, origin: Option<(i32, i32)>) -> Option<PixelRect> {
    match (app, origin) {
        (Some(a), Some(o)) => painted_rect(fw as int, fh as int, (a.0 - o.0) as i32, (a.1 - o.1) as i32, a.2, a.3),
        _ => None,
    }
}

/// The pixels of a capture after Capto's own window is blacked out.
pub open spec fn masked_pixels(f: Frame, app: Option<(i32, i32, u32, u32)>, origin: Option<(i32, i32)>) -> Seq<u8> {
    match (app, origin) {
        (Some(a), Some(o)) => if app_mask(f.width, f.height, app, origin) is Some {
            blacked(f.rgba@, f.width as int, f.height as int, (a.0 - o.0) as i32, (a.1 - o.1) as i32, a.2, a.3)
        } else {
            f.rgba@
        },
        _ => f.rgba@,
    }
}

/// The live preview of a capture: Capto's own window (when it is shown and
/// its place is known) is blacked out so it does not film itself, then the
/// frame is encoded as a JPEG at most 480 wide at quality 55.
pub fn screen_preview(frame: Frame, app: Option<(i32, i32, u32, u32)>, origin: Option<(i32, i32)>) -> (r: Result<ScreenPreview, CaptureError>)
    requires
        frame.width <= i32::MAX,
        frame.height <= i32::MAX,
        frame.width as int * 8 <= usize::MAX,
        (app, origin) matches (Some(a), Some(o)) ==> i32::MIN <= a.0 - o.0 <= i32::MAX && i32::MIN
            <= a.1 - o.1 <= i32::MAX,
    ensures
        ({
            let rgba = masked_pixels(frame, app, origin);
            match r {
                Ok(p) => {
                    &&& preview_outcome(Ok((p.width, p.height, p.jpeg)), frame.width, frame.height, rgba, 480, 55)
                    &&& p.source_width == (if frame.width < 1 { 1 } else { frame.width })
                    &&& p.source_height == (if frame.height < 1 { 1 } else { frame.height })
                    &&& p.timestamp_ms == frame.timestamp_ms
                    &&& p.masked == app_mask(frame.width, frame.height, app, origin)
                },
                Err(e) => preview_outcome(Err(e), frame.width, frame.height, rgba, 480, 55),
            }
        }),
{
    let mut f = frame;
    let timestamp_ms = f.timestamp_ms;
    let source_width = if f.width < 1 { 1 } else { f.width };
    let source_height = if f.height < 1 { 1 } else { f.height };
    let masked = match (app, origin) {
        (Some(a), Some(o)) => f.blackout_rect(a.0 - o.0, a.1 - o.1, a.2, a.3),
        _ => None,
    };
    match f.preview_jpeg(480, 55) {
        Ok((width, height, jpeg)) => Ok(
            ScreenPreview { width, height, source_width, source_height, jpeg, timestamp_ms, masked },
        ),
        Err(e) => Err(e),
    }
}

} // verus!
