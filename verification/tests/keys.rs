use pyonji::keys::{
    control_key_byte, is_csi, tab_digit_index, KeyBinding, KeyBindingError, KeyCode,
    Modifiers,
};
use pyonji::mode::{action_mode_key, key_event, modifiers_changed, KeyOutcome, ModeState};
use pyonji::geometry::SplitDirection;

fn mods(shift: bool, control: bool, alt: bool, logo: bool) -> Modifiers {
    Modifiers { shift, control, alt, logo }
}

fn none() -> Modifiers {
    mods(false, false, false, false)
}

fn ctrl() -> Modifiers {
    mods(false, true, false, false)
}

#[test]
fn binding_cuts_count_characters_as_bytes() {
    assert_eq!(KeyBinding::parse("<ctrl>é-a"), Err(KeyBindingError::InvalidKey("-a".to_string())));
    assert_eq!(KeyBinding::parse("<ctrl>-é"), Err(KeyBindingError::InvalidKey("é".to_string())));
    assert_eq!(
        KeyBinding::parse("<ctrl>-ß"),
        Err(KeyBindingError::InvalidKey("ß".to_string()))
    );
}

#[test]
fn parse_key_ignores_case() {
    for name in ["ArrowUp", "PageDown", "F7", "Q", "BackQuote", "ctrl", "F13"] {
        assert_eq!(KeyBinding::parse_key(name), KeyBinding::parse_key(&name.to_lowercase()));
        assert_eq!(KeyBinding::parse_key(name), KeyBinding::parse_key(&name.to_uppercase()));
    }
    assert_eq!(KeyBinding::parse("<ctrl>-P"), KeyBinding::parse("<ctrl>-p"));
}

#[test]
fn parse_key_names() {
    assert_eq!(KeyBinding::parse_key("a"), Ok(KeyCode::KeyA));
    assert_eq!(KeyBinding::parse_key("Enter"), Ok(KeyCode::Enter));
    assert_eq!(KeyBinding::parse_key("RETURN"), Ok(KeyCode::Enter));
    assert_eq!(KeyBinding::parse_key("esc"), Ok(KeyCode::Escape));
    assert_eq!(KeyBinding::parse_key("F12"), Ok(KeyCode::F12));
    assert_eq!(KeyBinding::parse_key("dot"), Ok(KeyCode::Period));
    assert_eq!(KeyBinding::parse_key("["), Ok(KeyCode::BracketLeft));
    assert_eq!(KeyBinding::parse_key("7"), Ok(KeyCode::Digit7));
    assert_eq!(KeyBinding::parse_key("ArrowLeft"), Ok(KeyCode::ArrowLeft));
}

#[test]
fn parse_key_rejects_unknown_names_in_lower_case() {
    let e = KeyBinding::parse_key("Foo").unwrap_err();
    assert_eq!(e, KeyBindingError::InvalidKey("foo".to_string()));
    assert_eq!(e.message(), "`foo` is not a valid key");
}

#[test]
fn parse_binding_with_modifiers() {
    assert_eq!(
        KeyBinding::parse("<ctrl>-p"),
        Ok(KeyBinding { mods: ctrl(), key: KeyCode::KeyP })
    );
    assert_eq!(
        KeyBinding::parse("<ctrl+shift>-F"),
        Ok(KeyBinding { mods: mods(true, true, false, false), key: KeyCode::KeyF })
    );
    assert_eq!(
        KeyBinding::parse("< alt + mod >-space"),
        Ok(KeyBinding { mods: mods(false, false, true, true), key: KeyCode::Space })
    );
    assert_eq!(KeyBinding::parse("f5"), Ok(KeyBinding { mods: none(), key: KeyCode::F5 }));
    assert_eq!(KeyBinding::parse("<>-x"), Err(KeyBindingError::InvalidKey(">-x".to_string())));
}

#[test]
fn parse_binding_errors() {
    assert_eq!(KeyBinding::parse("<ctrl-p"), Err(KeyBindingError::UnclosedModifiers));
    assert_eq!(
        KeyBinding::parse("<ctrl>-p").map(|b| b.key),
        Ok(KeyCode::KeyP)
    );
    let e = KeyBinding::parse("<hyper>-p").unwrap_err();
    assert_eq!(e, KeyBindingError::InvalidModifier("hyper".to_string()));
    assert_eq!(e.message(), "`hyper` is not a valid modifier");
    assert_eq!(
        KeyBinding::parse("<ctrl>p"),
        Err(KeyBindingError::InvalidKey(">p".to_string()))
    );
    assert_eq!(
        KeyBindingError::UnclosedModifiers.message(),
        "failed to find `>` while parsing keybinding modifiers"
    );
}

#[test]
fn control_bytes_and_digits() {
    assert_eq!(control_key_byte(KeyCode::KeyA), Some(1));
    assert_eq!(control_key_byte(KeyCode::KeyZ), Some(26));
    assert_eq!(control_key_byte(KeyCode::Digit1), None);
    assert_eq!(tab_digit_index(KeyCode::Digit1), Some(0));
    assert_eq!(tab_digit_index(KeyCode::Digit9), Some(8));
    assert_eq!(tab_digit_index(KeyCode::Digit0), None);
}

#[test]
fn csi_modifier_parameter() {
    assert_eq!(is_csi(none()), None);
    assert_eq!(is_csi(mods(true, false, false, false)), Some(2));
    assert_eq!(is_csi(mods(false, false, true, false)), Some(3));
    assert_eq!(is_csi(ctrl()), Some(5));
    assert_eq!(is_csi(mods(true, true, true, false)), Some(8));
    assert_eq!(is_csi(mods(false, false, false, true)), None);
}

#[test]
fn ctrl_b_enters_action_mode_and_commands_follow() {
    let mut st = ModeState::new();
    let action = KeyBinding { mods: ctrl(), key: KeyCode::KeyB };
    let none_bound: Vec<KeyBinding> = Vec::new();
    assert_eq!(key_event(&mut st, KeyCode::KeyB, true, ctrl(), action, &none_bound), KeyOutcome::Done);
    assert!(st.action_mode && st.resize_mode_held);
    assert_eq!(key_event(&mut st, KeyCode::KeyB, false, ctrl(), action, &none_bound), KeyOutcome::Done);
    assert!(st.action_mode && !st.resize_mode_held);
    assert_eq!(key_event(&mut st, KeyCode::KeyV, true, none(), action, &none_bound), KeyOutcome::Split(SplitDirection::Vertical));
    assert!(!st.action_mode);
    assert_eq!(key_event(&mut st, KeyCode::KeyV, true, none(), action, &none_bound), KeyOutcome::Forward);
}

#[test]
fn arrows_resize_while_the_action_key_is_held() {
    let mut st = ModeState::new();
    let action = KeyBinding { mods: ctrl(), key: KeyCode::KeyB };
    let none_bound: Vec<KeyBinding> = Vec::new();
    key_event(&mut st, KeyCode::KeyB, true, ctrl(), action, &none_bound);
    assert_eq!(
        key_event(&mut st, KeyCode::ArrowLeft, true, ctrl(), action, &none_bound),
        KeyOutcome::ResizePane(SplitDirection::Vertical, -1)
    );
    assert_eq!(
        key_event(&mut st, KeyCode::ArrowDown, true, ctrl(), action, &none_bound),
        KeyOutcome::ResizePane(SplitDirection::Horizontal, 1)
    );
    key_event(&mut st, KeyCode::KeyB, false, ctrl(), action, &none_bound);
    assert_eq!(st, ModeState::new());
}

#[test]
fn releasing_ctrl_ends_resize_mode() {
    let mut st = ModeState { action_mode: true, pending_move_to_tab: false, resize_mode_held: true, resize_mode_used: true };
    modifiers_changed(&mut st, true);
    assert!(st.resize_mode_held);
    modifiers_changed(&mut st, false);
    assert_eq!(st, ModeState::new());
}

#[test]
fn move_to_tab_takes_the_next_digit() {
    let mut st = ModeState { action_mode: true, pending_move_to_tab: false, resize_mode_held: false, resize_mode_used: false };
    assert_eq!(action_mode_key(&mut st, KeyCode::KeyM), Some(KeyOutcome::Redraw));
    assert!(st.pending_move_to_tab && st.action_mode);
    assert_eq!(action_mode_key(&mut st, KeyCode::Digit3), Some(KeyOutcome::MoveToTab(2)));
    assert_eq!(st, ModeState::new());
    let mut st = ModeState { action_mode: true, pending_move_to_tab: true, resize_mode_held: false, resize_mode_used: false };
    assert_eq!(action_mode_key(&mut st, KeyCode::KeyQ), Some(KeyOutcome::MoveCancelled));
    assert!(!st.action_mode);
}

#[test]
fn action_mode_commands() {
    let cases = [
        (KeyCode::Digit1, Some(KeyOutcome::SwitchTab(0))),
        (KeyCode::KeyK, Some(KeyOutcome::NextTab)),
        (KeyCode::KeyJ, Some(KeyOutcome::PreviousTab)),
        (KeyCode::KeyW, Some(KeyOutcome::FocusNextPane)),
        (KeyCode::KeyH, Some(KeyOutcome::Split(SplitDirection::Horizontal))),
        (KeyCode::KeyT, Some(KeyOutcome::ToggleDecorations)),
        (KeyCode::KeyS, Some(KeyOutcome::ToggleStatusBar)),
        (KeyCode::KeyP, Some(KeyOutcome::ShowPalette)),
        (KeyCode::Semicolon, Some(KeyOutcome::OpenCommandPrompt)),
        (KeyCode::KeyL, Some(KeyOutcome::OpenLuaPrompt)),
        (KeyCode::KeyD, Some(KeyOutcome::DetachActive)),
        (KeyCode::KeyR, Some(KeyOutcome::ReloadConfig)),
        (KeyCode::KeyA, Some(KeyOutcome::ShowDetached)),
        (KeyCode::KeyZ, None),
    ];
    for (code, expected) in cases {
        let mut st = ModeState { action_mode: true, pending_move_to_tab: false, resize_mode_held: false, resize_mode_used: false };
        assert_eq!(action_mode_key(&mut st, code), expected);
        assert!(!st.action_mode);
    }
}

#[test]
fn user_bindings_and_their_action_key() {
    let mut st = ModeState::new();
    let action = KeyBinding { mods: mods(false, false, true, false), key: KeyCode::KeyA };
    let bound = vec![
        KeyBinding { mods: ctrl(), key: KeyCode::KeyX },
        KeyBinding { mods: ctrl(), key: KeyCode::KeyY },
    ];
    assert_eq!(key_event(&mut st, KeyCode::KeyY, true, ctrl(), action, &bound), KeyOutcome::RunBinding(1));
    assert_eq!(key_event(&mut st, KeyCode::KeyB, true, ctrl(), action, &bound), KeyOutcome::Forward);
    assert!(!st.action_mode);
    assert_eq!(key_event(&mut st, KeyCode::KeyA, true, mods(false, false, true, false), action, &bound), KeyOutcome::Done);
    assert!(st.action_mode);
    assert_eq!(key_event(&mut st, KeyCode::KeyK, true, none(), action, &bound), KeyOutcome::NextTab);
}

#[test]
fn ctrl_shift_shortcuts_without_user_bindings() {
    let mut st = ModeState::new();
    let action = KeyBinding { mods: ctrl(), key: KeyCode::KeyB };
    let none_bound: Vec<KeyBinding> = Vec::new();
    let cs = mods(true, true, false, false);
    assert_eq!(key_event(&mut st, KeyCode::KeyF, true, cs, action, &none_bound), KeyOutcome::ShowPalette);
    assert_eq!(key_event(&mut st, KeyCode::KeyS, true, cs, action, &none_bound), KeyOutcome::ShowSessions);
    assert_eq!(key_event(&mut st, KeyCode::KeyQ, false, cs, action, &none_bound), KeyOutcome::Done);
}

#[test]
fn parse_single_modifiers() {
    assert_eq!(KeyBinding::parse_mod(" ctrl "), Ok(ctrl()));
    assert_eq!(KeyBinding::parse_mod("mod"), Ok(mods(false, false, false, true)));
    assert_eq!(KeyBinding::parse_mod("shift"), Ok(mods(true, false, false, false)));
    assert_eq!(
        KeyBinding::parse_mod("Ctrl"),
        Err(KeyBindingError::InvalidModifier("Ctrl".to_string()))
    );
}
