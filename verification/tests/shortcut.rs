use capto::hotkeys::{channel, create_input_hook, InputHook};
use capto::shortcut::{parse_hotkey_shortcut, HotkeyKey, HotkeyModifiers, ParsedShortcut};

#[test]
fn parses_modifiers_and_key() {
    let s = parse_hotkey_shortcut("CommandOrControl+Shift+R").unwrap();
    assert_eq!(
        s,
        ParsedShortcut {
            modifiers: HotkeyModifiers { control: true, shift: true, alt: false, super_key: false },
            key: HotkeyKey::Letter('R'),
        }
    );
}

#[test]
fn parts_are_trimmed_and_keys_case_blind() {
    let s = parse_hotkey_shortcut(" Alt + f12 ").unwrap();
    assert!(s.modifiers.alt);
    assert_eq!(s.key, HotkeyKey::Function(12));
    assert_eq!(parse_hotkey_shortcut("Meta+7").unwrap().key, HotkeyKey::Digit('7'));
    assert_eq!(parse_hotkey_shortcut("f1").unwrap().key, HotkeyKey::Function(1));
}

#[test]
fn no_key_means_no_shortcut() {
    assert_eq!(parse_hotkey_shortcut("Ctrl+Shift"), None);
    assert_eq!(parse_hotkey_shortcut("Ctrl+F13"), None);
    assert_eq!(parse_hotkey_shortcut("Ctrl+A+Space"), None);
    assert_eq!(parse_hotkey_shortcut(""), None);
    assert_eq!(parse_hotkey_shortcut("ctrl+A").map(|s| s.modifiers.control), Some(false));
}

#[test]
fn null_input_hook_starts_and_stops_quietly() {
    let (tx, rx) = channel();
    let mut hook = create_input_hook();
    assert!(hook.start(tx).is_ok());
    hook.stop();
    assert!(rx.try_recv().is_err());
}
