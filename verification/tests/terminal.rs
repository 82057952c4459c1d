use pyonji::input::{
    csi_key_bytes, csi_tilde_bytes, cursor_key_bytes, key_press_bytes, named_key_output, KeyPress,
    NamedKey,
};
use pyonji::keys::{KeyCode, Modifiers};
use pyonji::session::{
    cursor_style_for_output, mouse_event_code, mouse_sequence, parse_title, scroll_request, scrollback_target,
    send_mouse_event, title_from_bytes, uses_local_scrollback, CursorState, MouseAction,
    MouseButton, MouseEncoding, MouseMode, MouseTracker, SessionIds,
};
use pyonji::SessionId;

fn mods(shift: bool, control: bool, alt: bool) -> Modifiers {
    Modifiers { shift, control, alt, logo: false }
}

fn none() -> Modifiers {
    mods(false, false, false)
}

fn press(physical: Option<KeyCode>, named: NamedKey, text: Option<&str>) -> KeyPress {
    KeyPress { pressed: true, physical, named, text: text.map(|t| t.to_string()) }
}

#[test]
fn csi_sequences() {
    assert_eq!(csi_key_bytes(None, b'H'), b"\x1b[H".to_vec());
    assert_eq!(csi_key_bytes(Some(5), b'H'), b"\x1b[1;5H".to_vec());
    assert_eq!(csi_tilde_bytes(None, 15), b"\x1b[15~".to_vec());
    assert_eq!(csi_tilde_bytes(Some(3), 3), b"\x1b[3;3~".to_vec());
    assert_eq!(cursor_key_bytes(None, b'A', true), b"\x1bOA".to_vec());
    assert_eq!(cursor_key_bytes(None, b'A', false), b"\x1b[A".to_vec());
    assert_eq!(cursor_key_bytes(Some(2), b'A', true), b"\x1b[1;2A".to_vec());
}

#[test]
fn csi_key_with_a_high_byte_sends_its_utf8() {
    assert_eq!(csi_key_bytes(Some(2), 0xE9), vec![0x1b, b'[', b'1', b';', b'2', 0xC3, 0xA9]);
}

#[test]
fn named_keys() {
    assert_eq!(named_key_output(NamedKey::Enter, none(), None, false), Some(b"\r".to_vec()));
    assert_eq!(named_key_output(NamedKey::Tab, mods(true, false, false), Some(2), false), Some(b"\x1b[Z".to_vec()));
    assert_eq!(named_key_output(NamedKey::Tab, none(), None, false), Some(b"\t".to_vec()));
    assert_eq!(named_key_output(NamedKey::Backspace, none(), None, false), Some(vec![0x7f]));
    assert_eq!(named_key_output(NamedKey::F1, none(), None, false), Some(b"\x1bOP".to_vec()));
    assert_eq!(named_key_output(NamedKey::F4, none(), Some(5), false), Some(b"\x1b[1;5S".to_vec()));
    assert_eq!(named_key_output(NamedKey::F12, none(), None, false), Some(b"\x1b[24~".to_vec()));
    assert_eq!(named_key_output(NamedKey::PageDown, none(), Some(3), false), Some(b"\x1b[6;3~".to_vec()));
    assert_eq!(named_key_output(NamedKey::Other, none(), None, false), None);
}

#[test]
fn key_presses() {
    let ctrl_c = press(Some(KeyCode::KeyC), NamedKey::Other, Some("c"));
    assert_eq!(key_press_bytes(&ctrl_c, mods(false, true, false), Some(5), false), vec![3]);
    let a = press(Some(KeyCode::KeyA), NamedKey::Other, Some("a"));
    assert_eq!(key_press_bytes(&a, none(), None, false), b"a".to_vec());
    assert_eq!(key_press_bytes(&a, mods(false, false, true), Some(3), false), b"\x1ba".to_vec());
    let up = press(Some(KeyCode::ArrowUp), NamedKey::ArrowUp, None);
    assert_eq!(key_press_bytes(&up, none(), None, true), b"\x1bOA".to_vec());
    let ctrl_up = press(Some(KeyCode::ArrowUp), NamedKey::ArrowUp, None);
    assert_eq!(key_press_bytes(&ctrl_up, mods(false, true, false), Some(5), true), b"\x1b[1;5A".to_vec());
    let e = press(None, NamedKey::Other, Some("é"));
    assert_eq!(key_press_bytes(&e, none(), None, false), "é".as_bytes().to_vec());
    let silent = press(None, NamedKey::Other, None);
    assert!(key_press_bytes(&silent, none(), None, false).is_empty());
    let released = KeyPress { pressed: false, physical: Some(KeyCode::KeyA), named: NamedKey::Other, text: Some("a".to_string()) };
    assert!(key_press_bytes(&released, none(), None, false).is_empty());
}

#[test]
fn mouse_codes() {
    assert_eq!(mouse_event_code(MouseAction::Press, Some(MouseButton::Left), none(), MouseMode::Press), Some(0));
    assert_eq!(mouse_event_code(MouseAction::Press, Some(MouseButton::Right), mods(true, true, false), MouseMode::Press), Some(22));
    assert_eq!(mouse_event_code(MouseAction::Press, Some(MouseButton::Back), none(), MouseMode::AnyMotion), None);
    assert_eq!(mouse_event_code(MouseAction::Press, Some(MouseButton::Left), none(), MouseMode::Disabled), None);
    assert_eq!(mouse_event_code(MouseAction::Release, Some(MouseButton::Left), none(), MouseMode::Press), None);
    assert_eq!(mouse_event_code(MouseAction::Release, Some(MouseButton::Left), mods(false, false, true), MouseMode::PressRelease), Some(11));
    assert_eq!(mouse_event_code(MouseAction::Motion, Some(MouseButton::Middle), none(), MouseMode::ButtonMotion), Some(33));
    assert_eq!(mouse_event_code(MouseAction::Motion, None, none(), MouseMode::AnyMotion), Some(35));
    assert_eq!(mouse_event_code(MouseAction::Motion, None, none(), MouseMode::PressRelease), None);
}

#[test]
fn mouse_reports() {
    assert_eq!(mouse_sequence(0, false, 12, 7, MouseEncoding::Sgr), b"\x1b[<0;12;7M".to_vec());
    assert_eq!(mouse_sequence(3, true, 120, 40, MouseEncoding::Sgr), b"\x1b[<3;120;40m".to_vec());
    assert_eq!(mouse_sequence(0, false, 12, 7, MouseEncoding::Default), vec![0x1b, b'[', b'M', 32, 44, 39]);
    assert!(mouse_sequence(0, false, 300, 7, MouseEncoding::Utf8).is_empty());
    assert!(mouse_sequence(230, false, 1, 1, MouseEncoding::Default).is_empty());
    assert_eq!(
        send_mouse_event(MouseAction::Release, Some(MouseButton::Left), none(), 2, 3, MouseMode::ButtonMotion, MouseEncoding::Sgr),
        b"\x1b[<3;2;3m".to_vec()
    );
    assert!(send_mouse_event(MouseAction::Motion, Some(MouseButton::Left), none(), 2, 3, MouseMode::Press, MouseEncoding::Sgr).is_empty());
}

#[test]
fn mouse_tracker_reports_drags_once_per_cell() {
    let mut t = MouseTracker::new();
    let sgr = MouseEncoding::Sgr;
    assert_eq!(t.handle_button(MouseButton::Left, true, none(), 5, 5, MouseMode::ButtonMotion, sgr), b"\x1b[<0;5;5M".to_vec());
    assert!(t.handle_move(none(), 5, 5, MouseMode::ButtonMotion, sgr).is_empty());
    assert_eq!(t.handle_move(none(), 6, 5, MouseMode::ButtonMotion, sgr), b"\x1b[<32;6;5M".to_vec());
    assert_eq!(t.handle_button(MouseButton::Left, false, none(), 6, 5, MouseMode::ButtonMotion, sgr), b"\x1b[<3;6;5m".to_vec());
    assert_eq!(t.pressed_button, None);
    assert!(t.handle_move(none(), 7, 5, MouseMode::ButtonMotion, sgr).is_empty());
    assert_eq!(t.handle_move(none(), 7, 5, MouseMode::AnyMotion, sgr), b"\x1b[<35;7;5M".to_vec());
    assert_eq!(t.handle_wheel(true, mods(false, true, false), 1, 2, MouseMode::Press, sgr), b"\x1b[<80;1;2M".to_vec());
    assert_eq!(t.handle_wheel(false, none(), 1, 2, MouseMode::Press, sgr), b"\x1b[<65;1;2M".to_vec());
    assert!(t.handle_wheel(false, none(), 1, 2, MouseMode::Disabled, sgr).is_empty());
    assert!(t.handle_button(MouseButton::Left, true, none(), 1, 1, MouseMode::Disabled, sgr).is_empty());
    assert_eq!(t.pressed_button, None);
}

#[test]
fn scrollback() {
    assert!(uses_local_scrollback(false, MouseMode::Disabled));
    assert!(!uses_local_scrollback(true, MouseMode::Disabled));
    assert!(!uses_local_scrollback(false, MouseMode::Press));
    assert_eq!(scrollback_target(10, 3), 13);
    assert_eq!(scrollback_target(10, -3), 7);
    assert_eq!(scrollback_target(2, -5), 0);
    assert_eq!(scrollback_target(usize::MAX - 1, 5), usize::MAX);
    assert_eq!(scrollback_target(5, i32::MIN), 0);
}

#[test]
fn cursor_shape_requests_in_output() {
    assert_eq!(cursor_style_for_output(b"\x1b[2 q", CursorState::Bar), CursorState::Block);
    assert_eq!(cursor_style_for_output(b"ab\x1b[4 qcd\x1b[6 q", CursorState::Block), CursorState::Bar);
    assert_eq!(cursor_style_for_output(b"\x1b[3 q", CursorState::Bar), CursorState::Underline);
    assert_eq!(cursor_style_for_output(b"plain text", CursorState::Underline), CursorState::Underline);
    assert_eq!(cursor_style_for_output(b"\xff\x1b[2 q", CursorState::Bar), CursorState::Bar);
}

#[test]
fn cursor_style_sequences_past_other_text() {
    let text = "é\x1b[31mx\x1b[4 q👋\x1b[";
    assert_eq!(cursor_style_for_output(text.as_bytes(), CursorState::Bar), CursorState::Underline);
    assert_eq!(cursor_style_for_output("\x1b[5\nq".as_bytes(), CursorState::Block), CursorState::Block);
    assert_eq!(cursor_style_for_output("\x1b[\x1b[2 q".as_bytes(), CursorState::Bar), CursorState::Bar);
}

#[test]
fn scroll_requests_only_for_local_scrollback() {
    assert_eq!(scroll_request(false, MouseMode::Disabled, 10, 3), Some(13));
    assert_eq!(scroll_request(false, MouseMode::Disabled, 2, -5), Some(0));
    assert_eq!(scroll_request(false, MouseMode::Disabled, 4, 0), None);
    assert_eq!(scroll_request(true, MouseMode::Disabled, 4, 1), None);
    assert_eq!(scroll_request(false, MouseMode::Press, 4, 1), None);
}

#[test]
fn window_titles() {
    assert_eq!(parse_title("user@host - vim "), Some("vim".to_string()));
    assert_eq!(parse_title("/usr/bin/htop"), Some("htop".to_string()));
    assert_eq!(title_from_bytes(b"a-b"), Some("b".to_string()));
    assert_eq!(title_from_bytes(b"\xff-b"), None);
}

#[test]
fn window_titles_without_dash_name_the_program() {
    assert_eq!(parse_title("htop"), Some("htop".to_string()));
    assert_eq!(title_from_bytes(b"bash"), Some("bash".to_string()));
    assert_eq!(parse_title("~/src/"), Some("src".to_string()));
    assert_eq!(parse_title(".."), None);
    assert_eq!(parse_title(""), None);
}

#[test]
fn session_ids_are_fresh() {
    let mut ids = SessionIds::new();
    let a = ids.allocate();
    let b = ids.allocate();
    assert_ne!(a, b);
    assert_eq!(a, SessionId(0));
    assert_eq!(b.label(), "1");
}
