//! Global hotkey bindings (start / pause / stop / screenshot) and the input
//! events the recording overlays consume.

use vstd::prelude::*;
use crate::text::{chars_of, eq_ignore_ascii_case, same_ignoring_ascii_case};

verus! {

#[derive(Debug, Clone, Copy, PartialEq, Eq, Structural)]
pub enum HotkeyAction {
    StartRecording,
    PauseRecording,
    StopRecording,
    TakeScreenshot,
}

#[derive(Debug)]
pub struct HotkeyBinding {
    pub action: HotkeyAction,
    /// Keyboard shortcut string, e.g. "CommandOrControl+Shift+R".
    pub shortcut: String,
    pub enabled: bool,
}

impl Clone for HotkeyBinding {
    fn clone(&self) -> (r: Self)
        ensures
            r == *self,
    {
        HotkeyBinding { action: self.action, shortcut: self.shortcut.clone(), enabled: self.enabled }
    }
}

/// The view of a binding: (action, shortcut, enabled).
pub open spec fn binding_view(b: HotkeyBinding) -> (HotkeyAction, Seq<char>, bool) {
    (b.action, b.shortcut@, b.enabled)
}

/// The views of a list of bindings.
pub open spec fn bindings_view(bs: Seq<HotkeyBinding>) -> Seq<(HotkeyAction, Seq<char>, bool)> {
    bs.map_values(|b: HotkeyBinding| binding_view(b))
}

impl HotkeyBinding {
    pub fn new(action: HotkeyAction, shortcut: &str) -> (r: Self)
        ensures
            r.action == action,
            r.shortcut@ == shortcut@,
            r.enabled,
    {
        HotkeyBinding { action, shortcut: shortcut.to_owned(), enabled: true }
    }
}

/// The supported actions, in the order settings list them.
pub open spec fn hotkey_actions() -> Seq<HotkeyAction> {
    seq![
        HotkeyAction::StartRecording,
        HotkeyAction::PauseRecording,
        HotkeyAction::StopRecording,
        HotkeyAction::TakeScreenshot,
    ]
}

/// The default shortcut of each action (Alt+F5..F8; Alt+F4 is reserved by
/// Windows).
pub open spec fn default_shortcut(a: HotkeyAction) -> Seq<char> {
    match a {
        HotkeyAction::StartRecording => "Alt+F5"@,
        HotkeyAction::PauseRecording => "Alt+F6"@,
        HotkeyAction::StopRecording => "Alt+F7"@,
        HotkeyAction::TakeScreenshot => "Alt+F8"@,
    }
}

/// The former default shortcut of each action, migrated when unchanged.
pub open spec fn legacy_shortcut(a: HotkeyAction) -> Seq<char> {
    match a {
        HotkeyAction::StartRecording => "CommandOrControl+Shift+R"@,
        HotkeyAction::PauseRecording => "CommandOrControl+Shift+P"@,
        HotkeyAction::StopRecording => "CommandOrControl+Shift+E"@,
        HotkeyAction::TakeScreenshot => "CommandOrControl+Shift+S"@,
    }
}

fn action_at(i: usize) -> (a: HotkeyAction)
    requires
        i < 4,
    ensures
        a == hotkey_actions()[i as int],
{
    if i == 0 {
        HotkeyAction::StartRecording
    } else if i == 1 {
        HotkeyAction::PauseRecording
    } else if i == 2 {
        HotkeyAction::StopRecording
    } else {
        HotkeyAction::TakeScreenshot
    }
}

fn default_shortcut_of(a: HotkeyAction) -> (r: &'static str)
    ensures
        r@ == default_shortcut(a),
{
    match a {
        HotkeyAction::StartRecording => "Alt+F5",
        HotkeyAction::PauseRecording => "Alt+F6",
        HotkeyAction::StopRecording => "Alt+F7",
        HotkeyAction::TakeScreenshot => "Alt+F8",
    }
}

fn legacy_shortcut_of(a: HotkeyAction) -> (r: &'static str)
    ensures
        r@ == legacy_shortcut(a),
{
    match a {
        HotkeyAction::StartRecording => "CommandOrControl+Shift+R",
        HotkeyAction::PauseRecording => "CommandOrControl+Shift+P",
        HotkeyAction::StopRecording => "CommandOrControl+Shift+E",
        HotkeyAction::TakeScreenshot => "CommandOrControl+Shift+S",
    }
}

/// The default binding of an action.
pub open spec fn default_binding(a: HotkeyAction) -> (HotkeyAction, Seq<char>, bool) {
    (a, default_shortcut(a), true)
}

pub fn default_hotkeys() -> (r: Vec<HotkeyBinding>)
    ensures
        bindings_view(r@) == hotkey_actions().map_values(|a: HotkeyAction| default_binding(a)),
{
    let mut v: Vec<HotkeyBinding> = Vec::new();
    let mut i: usize = 0;
    while i < 4
        invariant
            i <= 4,
            bindings_view(v@) == hotkey_actions().take(i as int).map_values(
                |a: HotkeyAction| default_binding(a),
            ),
        decreases 4 - i,
    {
        let a = action_at(i);
        let ghost before = bindings_view(v@);
        v.push(HotkeyBinding::new(a, default_shortcut_of(a)));
        proof {
            assert(bindings_view(v@) =~= before.push(default_binding(a)));
            assert(hotkey_actions().take(i + 1).map_values(|a: HotkeyAction| default_binding(a))
                =~= hotkey_actions().take(i as int).map_values(|a: HotkeyAction| default_binding(a)).push(
                default_binding(a),
            ));
        }
        i = i + 1;
    }
    proof {
        assert(hotkey_actions().take(4) == hotkey_actions());
    }
    v
}

/// The first binding at or after `i` for action `a`.
pub open spec fn first_binding(bs: Seq<(HotkeyAction, Seq<char>, bool)>, a: HotkeyAction, i: int) -> Option<int>
    decreases bs.len() - i,
{
    if i < 0 || i >= bs.len() {
        None
    } else if bs[i].0 == a {
        Some(i)
    } else {
        first_binding(bs, a, i + 1)
    }
}

pub proof fn lemma_first_binding_bounds(bs: Seq<(HotkeyAction, Seq<char>, bool)>, a: HotkeyAction, i: int)
    ensures
        first_binding(bs, a, i) matches Some(k) ==> 0 <= i <= k < bs.len() && bs[k].0 == a,
    decreases bs.len() - i,
{
    if i >= 0 && i < bs.len() && bs[i].0 != a {
        lemma_first_binding_bounds(bs, a, i + 1);
    }
}

proof fn lemma_first_binding_at(bs: Seq<(HotkeyAction, Seq<char>, bool)>, a: HotkeyAction, j: int, i: int)
    requires
        0 <= j <= i < bs.len(),
        bs[i].0 == a,
        forall|m: int| j <= m < i ==> bs[m].0 != a,
    ensures
        first_binding(bs, a, j) == Some(i),
    decreases i - j,
{
    if j < i {
        lemma_first_binding_at(bs, a, j + 1, i);
    }
}

/// The normalized binding of action `a`: the first existing binding for it,
/// its legacy default shortcut (in any ASCII case) migrated to the new
/// default; the default binding when none exists.
pub open spec fn normalized_binding(bs: Seq<(HotkeyAction, Seq<char>, bool)>, a: HotkeyAction) -> (HotkeyAction, Seq<char>, bool) {
    match first_binding(bs, a, 0) {
        None => default_binding(a),
        Some(k) => if eq_ignore_ascii_case(bs[k].1, legacy_shortcut(a)) {
            (a, default_shortcut(a), bs[k].2)
        } else {
            bs[k]
        },
    }
}

proof fn lemma_normalized_action(bs: Seq<(HotkeyAction, Seq<char>, bool)>, a: HotkeyAction)
    ensures
        normalized_binding(bs, a).0 == a,
{
    lemma_first_binding_bounds(bs, a, 0);
}

/// What `normalize_hotkeys` leaves: exactly the four supported actions, in
/// order.
pub open spec fn normalized(bs: Seq<(HotkeyAction, Seq<char>, bool)>) -> Seq<(HotkeyAction, Seq<char>, bool)> {
    hotkey_actions().map_values(|a: HotkeyAction| normalized_binding(bs, a))
}

/// Ensure settings always expose exactly the four supported actions, in
/// order, and migrate the previous Ctrl+Shift defaults to Alt+F5..F8 when
/// they are still unchanged.
pub fn normalize_hotkeys(hotkeys: &mut Vec<HotkeyBinding>)
    ensures
        bindings_view(final(hotkeys)@) == normalized(bindings_view(old(hotkeys)@)),
{
    let ghost bs = bindings_view(hotkeys@);
    let mut ordered: Vec<HotkeyBinding> = Vec::new();
    let mut i: usize = 0;
    while i < 4
        invariant
            i <= 4,
            bs == bindings_view(hotkeys@),
            bindings_view(ordered@) == hotkey_actions().take(i as int).map_values(
                |a: HotkeyAction| normalized_binding(bs, a),
            ),
        decreases 4 - i,
    {
        let a = action_at(i);
        let mut k: usize = 0;
        while k < hotkeys.len() && hotkeys[k].action != a
            invariant
                k <= hotkeys@.len(),
                bs == bindings_view(hotkeys@),
                first_binding(bs, a, 0) == first_binding(bs, a, k as int),
            decreases hotkeys@.len() - k,
        {
            k = k + 1;
        }
        let b = if k < hotkeys.len() {
            assert(bs[k as int] == binding_view(hotkeys@[k as int]));
            assert(first_binding(bs, a, k as int) == Some(k as int));
            let existing = hotkeys[k].clone();
            let cur = chars_of(existing.shortcut.as_str());
            let legacy = chars_of(legacy_shortcut_of(a));
            if same_ignoring_ascii_case(cur.as_slice(), legacy.as_slice()) {
                HotkeyBinding { action: a, shortcut: default_shortcut_of(a).to_owned(), enabled: existing.enabled }
            } else {
                existing
            }
        } else {
            assert(first_binding(bs, a, k as int) is None);
            HotkeyBinding::new(a, default_shortcut_of(a))
        };
        let ghost before = bindings_view(ordered@);
        assert(binding_view(b) == normalized_binding(bs, a));
        ordered.push(b);
        proof {
            assert(bindings_view(ordered@) =~= before.push(normalized_binding(bs, a)));
            assert(hotkey_actions().take(i + 1).map_values(|a: HotkeyAction| normalized_binding(bs, a))
                =~= hotkey_actions().take(i as int).map_values(|a: HotkeyAction| normalized_binding(bs, a)).push(
                normalized_binding(bs, a),
            ));
        }
        i = i + 1;
    }
    proof {
        assert(hotkey_actions().take(4) == hotkey_actions());
    }
    *hotkeys = ordered;
}

/// Normalizing twice changes nothing more than normalizing once.
pub proof fn lemma_normalize_idempotent(bs: Seq<(HotkeyAction, Seq<char>, bool)>)
    ensures
        normalized(normalized(bs)) == normalized(bs),
{
    let n = normalized(bs);
    assert forall|i: int| 0 <= i < 4 implies #[trigger] normalized(n)[i] == n[i] by {
        let a = hotkey_actions()[i];
        assert(n.len() == 4);
        lemma_normalized_action(bs, a);
        assert(n[i].0 == a);
        lemma_first_binding_bounds(bs, a, 0);
        assert forall|j: int| 0 <= j < i implies n[j].0 != a by {
            lemma_normalized_action(bs, hotkey_actions()[j]);
            assert(n[j].0 == hotkey_actions()[j]);
        }
        lemma_first_binding_at(n, a, 0, i);
        // A migrated or defaulted shortcut is the new default, which is not
        // the legacy one in any case; an unchanged one was not legacy.
        reveal_strlit("Alt+F5");
        reveal_strlit("Alt+F6");
        reveal_strlit("Alt+F7");
        reveal_strlit("Alt+F8");
        reveal_strlit("CommandOrControl+Shift+R");
        reveal_strlit("CommandOrControl+Shift+P");
        reveal_strlit("CommandOrControl+Shift+E");
        reveal_strlit("CommandOrControl+Shift+S");
        if eq_ignore_ascii_case(default_shortcut(a), legacy_shortcut(a)) {
            assert(crate::text::lower(default_shortcut(a)).len() == default_shortcut(a).len());
        }
    }
    assert(normalized(n) =~= n);
}

#[derive(Debug, Clone, Copy, PartialEq, Eq, Structural)]
pub enum MouseButton {
    Left,
    Right,
    Middle,
}

#[derive(Debug)]
pub enum InputEvent {
    MouseButton { button: MouseButton, x: i32, y: i32, down: bool },
    Key {
        /// Display label, e.g. "Ctrl+C" or "A".
        label: String,
        down: bool,
    },
}

/// The sending half of a `std::sync::mpsc` channel, carried through as it is.
#[verifier::external_type_specification]
#[verifier::external_body]
#[verifier::reject_recursive_types(T)]
pub struct ExSender<T>(std::sync::mpsc::Sender<T>);

/// The receiving half of a `std::sync::mpsc` channel, carried through as it is.
#[verifier::external_type_specification]
#[verifier::external_body]
#[verifier::reject_recursive_types(T)]
pub struct ExReceiver<T>(std::sync::mpsc::Receiver<T>);

/// A new channel for input events (`std::sync::mpsc::channel`); nothing is
/// stated of the two halves.
#[verifier::external_body]
pub fn channel() -> (std::sync::mpsc::Sender<InputEvent>, std::sync::mpsc::Receiver<InputEvent>) {
    std::sync::mpsc::channel()
}

/// Low-level mouse/keyboard hooks used by recording overlays: `start`
/// sends the events it sees to `tx` until `stop`.
pub trait InputHook {
    fn start(&mut self, tx: std::sync::mpsc::Sender<InputEvent>) -> Result<(), String>;

    fn stop(&mut self);
}

/// A hook that does nothing (platforms without low-level input hooks).
pub struct NullInputHook;

impl InputHook for NullInputHook {
    fn start(&mut self, tx: std::sync::mpsc::Sender<InputEvent>) -> (r: Result<(), String>)
        ensures
            r is Ok,
    {
        Ok(())
    }

    fn stop(&mut self) {
    }
}

/// The input hook of this platform: the null hook.
pub fn create_input_hook() -> (r: NullInputHook) {
    NullInputHook
}

} // verus!
