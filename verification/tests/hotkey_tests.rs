use driftlet::hotkey::{
    apply_unchanged, parse_validated, settle_failed_apply, HotkeyAction, HotkeyRegistry,
};

#[test]
fn shortcut_display_normalizes_user_spellings() {
    let a = parse_validated("Ctrl+Alt+D", "zh-CN").unwrap();
    let b = parse_validated("ctrl+alt+d", "zh-CN").unwrap();
    let c = parse_validated("Alt+Ctrl+D", "zh-CN").unwrap();
    assert_eq!(a.display, b.display, "case variants must normalize");
    assert_eq!(a.display, c.display, "modifier order variants must normalize");
    assert_eq!(a.display, a.display);
    assert_ne!(a.display, "Ctrl+Alt+D");
}

#[test]
fn parse_validated_requires_modifier() {
    assert!(parse_validated("D", "zh-CN").is_err());
    assert!(parse_validated("Ctrl+Alt+D", "zh-CN").is_ok());
}

#[test]
fn invalid_hotkeys_get_the_invalid_message() {
    let e = parse_validated("Ctrl+Nope", "en").err().unwrap();
    assert_eq!(e, "Invalid hotkey: it needs a modifier plus a regular key (e.g. Ctrl+Alt+D)");
    assert!(parse_validated("  Ctrl+Alt+D  ", "en").is_ok());
    assert!(parse_validated("", "en").is_err());
}

#[test]
fn skin_hotkeys_win_over_the_global_one() {
    let mut reg = HotkeyRegistry::new();
    let k = parse_validated("Ctrl+Alt+D", "en").unwrap().display;
    reg.set_registered_combo(Some(k.clone()));
    assert!(matches!(reg.dispatch(&k), HotkeyAction::ToggleFocus));
    assert!(matches!(reg.dispatch("shift+KeyX"), HotkeyAction::Ignore));
    reg.bind_skin_hotkey(&k, "clock");
    assert!(matches!(reg.dispatch(&k), HotkeyAction::ToggleSkin(id) if id == "clock"));
}

#[test]
fn skin_hotkey_conflicts_are_refused() {
    let mut reg = HotkeyRegistry::new();
    reg.set_registered_combo(Some("control+alt+KeyD".to_string()));
    assert!(reg.check_skin_conflict("clock", "control+alt+KeyD", "en").is_err());
    reg.bind_skin_hotkey("shift+alt+KeyC", "clock");
    assert!(reg.check_skin_conflict("clock", "shift+alt+KeyC", "en").is_ok());
    let e = reg.check_skin_conflict("dock", "shift+alt+KeyC", "en").unwrap_err();
    assert_eq!(e, "Hotkey \"shift+alt+KeyC\" is already taken (by the global hotkey or another skin)");
    // re-binding a skin replaces its old key
    reg.bind_skin_hotkey("shift+alt+KeyK", "clock");
    assert!(matches!(reg.dispatch("shift+alt+KeyC"), HotkeyAction::Ignore));
    assert_eq!(reg.take_skin_hotkey("clock").as_deref(), Some("shift+alt+KeyK"));
    assert_eq!(reg.take_skin_hotkey("clock"), None);
    reg.bind_skin_hotkey("shift+alt+KeyA", "a");
    reg.bind_skin_hotkey("shift+alt+KeyB", "b");
    assert_eq!(reg.clear_skin_hotkeys(), vec!["shift+alt+KeyA".to_string(), "shift+alt+KeyB".to_string()]);
    assert!(matches!(reg.dispatch("shift+alt+KeyA"), HotkeyAction::Ignore));
}

#[test]
fn applying_the_registered_combo_again_is_a_no_op() {
    let mut reg = HotkeyRegistry::new();
    assert!(!apply_unchanged(&reg, "Ctrl+Alt+D", "Ctrl+Alt+D", Some("control+alt+KeyD")));
    reg.set_registered_combo(Some("control+alt+KeyD".to_string()));
    assert!(apply_unchanged(&reg, "Ctrl+Alt+D", "Ctrl+Alt+D", Some("control+alt+KeyD")));
    assert!(!apply_unchanged(&reg, "Ctrl+Alt+E", "Ctrl+Alt+D", Some("control+alt+KeyE")));
    settle_failed_apply(&mut reg, false, Some("control+alt+KeyD".to_string()));
    assert_eq!(reg.registered_combo(), None);
    settle_failed_apply(&mut reg, true, Some("control+alt+KeyD".to_string()));
    assert_eq!(reg.registered_combo().as_deref(), Some("control+alt+KeyD"));
}
