use pyonji::color::{ansi_index_to_rgb, Color, TermColor};
use pyonji::keys::KeyCode;
use pyonji::overlay::{
    draw_commands, modifier_commands, parse_usize, switch_command_target, Attribute, DrawCell, DrawOp,
    Overlay, OverlayKey, Screen, TextModifiers, UiColor,
};
use pyonji::palette::{command_args, command_name, rank_by_score, State, UiAction};
use pyonji::prompt::{single_line, unknown_command_message, Prompt, PromptAction, Mode, StatusBar};
use pyonji::statusbar::{fit_status_text, status_bar_layout};
use pyonji::workspace::RenderStatusTab;

fn typed(mode: Mode, text: &str) -> Prompt {
    let mut p = Prompt::new(mode);
    p.insert(text);
    p
}

#[test]
fn prompt_editing() {
    let mut p = typed(Mode::Command, "hello");
    assert_eq!(p.cursor(), 5);
    p.cursor_left();
    p.cursor_left();
    p.insert("XY");
    assert_eq!(p.text(), "helXYlo");
    assert_eq!(p.cursor(), 5);
    p.delete_before();
    assert_eq!(p.text(), "helXlo");
    p.delete_at();
    assert_eq!(p.text(), "helXo");
    p.cursor_home();
    p.delete_before();
    assert_eq!(p.text(), "helXo");
    p.cursor_end();
    p.delete_at();
    assert_eq!(p.text(), "helXo");
    assert_eq!(p.cursor(), 5);
}

#[test]
fn prompt_history() {
    let mut p = Prompt::new(Mode::Lua);
    p.push_history("one");
    p.push_history("two");
    p.push_history("two");
    p.history_prev();
    assert_eq!(p.text(), "two");
    p.history_prev();
    assert_eq!(p.text(), "one");
    p.history_prev();
    assert_eq!(p.text(), "one");
    p.history_next();
    assert_eq!(p.text(), "two");
    p.history_next();
    assert_eq!(p.text(), "");
    assert_eq!(p.cursor(), 0);
}

#[test]
fn prompt_history_steps_undo() {
    let mut p = Prompt::new(Mode::Command);
    p.push_history("one");
    p.push_history("two");
    p.push_history("three");
    p.history_prev();
    p.history_prev();
    assert_eq!(p.text(), "two");
    p.insert("!");
    p.history_prev();
    p.history_next();
    assert_eq!(p.text(), "two");
    assert_eq!(p.cursor(), 3);
    p.history_next();
    p.history_prev();
    assert_eq!(p.text(), "two");
}

#[test]
fn prompt_keys() {
    let mut p = typed(Mode::Command, "  split  ");
    match p.handle_key(KeyCode::Enter, None) {
        PromptAction::Submit(mode, text) => {
            assert_eq!(mode, Mode::Command);
            assert_eq!(text, "split");
        }
        _ => panic!("expected a submission"),
    }
    p.history_prev();
    assert_eq!(p.text(), "split");
    let mut blank = typed(Mode::Command, "   ");
    assert!(matches!(blank.handle_key(KeyCode::Enter, None), PromptAction::Close));
    assert!(matches!(blank.handle_key(KeyCode::Escape, None), PromptAction::Close));
    let mut r = typed(Mode::Rename, "x");
    assert!(matches!(r.handle_key(KeyCode::KeyA, Some("a")), PromptAction::Continue));
    assert_eq!(r.text(), "xa");
    assert!(matches!(r.handle_key(KeyCode::Backspace, None), PromptAction::Continue));
    assert_eq!(r.text(), "x");
}

#[test]
fn prompt_display_scrolls_to_the_cursor() {
    let p = typed(Mode::Command, "abcdefghij");
    let shown = p.display(8);
    assert_eq!(shown.prompt, " : ");
    assert_eq!(shown.text, "ghij");
    assert_eq!(shown.cursor_col, 7);
    let r = typed(Mode::Rename, "ab");
    let shown = r.display(20);
    assert_eq!(shown.prompt, " R: ");
    assert_eq!(shown.text, "ab");
    assert_eq!(shown.cursor_col, 6);
}

#[test]
fn status_messages() {
    assert_eq!(unknown_command_message("frob now"), "unknown command: frob");
    assert_eq!(unknown_command_message("frob"), "unknown command: frob");
    assert_eq!(single_line("a\nb\rc"), "a b c");
    let mut bar = StatusBar::new();
    assert!(!bar.is_active());
    bar.show_message("hi".to_string(), 1000);
    assert_eq!(bar.message(), Some("hi"));
    assert_eq!(bar.message_expiry(), Some(6000));
    assert!(!bar.clear_message_if_expired(5999));
    assert!(bar.clear_message_if_expired(6000));
    assert_eq!(bar.message(), None);
    bar.command_unknown("nope x", 7);
    assert_eq!(bar.message(), Some("unknown command: nope"));
}

#[test]
fn status_bar_prompt() {
    let mut bar = StatusBar::new();
    bar.show_message("old".to_string(), 0);
    bar.open_rename("shell");
    assert!(bar.is_active());
    assert_eq!(bar.message(), None);
    let input = bar.status_input(40).unwrap();
    assert_eq!(input.prompt, " R: ");
    assert_eq!(input.text, "shell");
    assert_eq!(input.cursor_col, 9);
    assert!(matches!(bar.handle_key(KeyCode::Enter, false, None), PromptAction::Continue));
    assert!(bar.is_active());
    match bar.handle_key(KeyCode::Enter, true, None) {
        PromptAction::Submit(Mode::Rename, name) => assert_eq!(name, "shell"),
        _ => panic!("expected a rename"),
    }
    assert!(!bar.is_active());
    bar.open(Mode::Command);
    assert!(matches!(bar.handle_key(KeyCode::Escape, true, None), PromptAction::Close));
    assert!(bar.status_input(40).is_none());
}

#[test]
fn palette_colors() {
    assert_eq!(ansi_index_to_rgb(0).rgba(), (0x36, 0x38, 0x4a, 0xff));
    assert_eq!(ansi_index_to_rgb(9).rgba(), (0xd4, 0x6c, 0x8a, 0xff));
    assert_eq!(ansi_index_to_rgb(15).rgba(), (0x88, 0x8f, 0xa8, 0xff));
    assert_eq!(ansi_index_to_rgb(16).rgba(), (0, 0, 0, 0xff));
    assert_eq!(ansi_index_to_rgb(196).rgba(), (255, 0, 0, 0xff));
    assert_eq!(ansi_index_to_rgb(110).rgba(), (135, 175, 215, 0xff));
    assert_eq!(ansi_index_to_rgb(231).rgba(), (255, 255, 255, 0xff));
    assert_eq!(ansi_index_to_rgb(232).rgba(), (8, 8, 8, 0xff));
    assert_eq!(ansi_index_to_rgb(255).rgba(), (238, 238, 238, 0xff));
    assert_eq!(Color::rgb(1, 2, 3).rgba(), (1, 2, 3, 0xff));
    assert_eq!(Color::from_term(TermColor::Default).rgba(), (0x18, 0x18, 0x18, 0xff));
    assert_eq!(Color::foreground(TermColor::Default).rgba(), (0xc6, 0xd0, 0xf5, 0xff));
    assert_eq!(Color::foreground(TermColor::Rgb(9, 8, 7)).rgba(), (9, 8, 7, 0xff));
    assert_eq!(Color::from_term(TermColor::Idx(232)).rgba(), (8, 8, 8, 0xff));
}

#[test]
fn fitting_status_text() {
    assert_eq!(fit_status_text("hello", 10), "hello");
    assert_eq!(fit_status_text("hello", 5), "hello");
    assert_eq!(fit_status_text("hello world", 8), "hello...");
    assert_eq!(fit_status_text("hello", 3), "...");
    assert_eq!(fit_status_text("hello", 2), "..");
    assert_eq!(fit_status_text("hello", 0), "");
}

#[test]
fn status_bar_layout_places_tabs_left_and_the_current_label_right() {
    let tabs = vec![
        RenderStatusTab { label: "1 zsh".to_string(), is_active: true },
        RenderStatusTab { label: "2 vim".to_string(), is_active: false },
    ];
    let segs = status_bar_layout(40, &tabs, "zsh");
    let got: Vec<(usize, String, bool)> = segs.into_iter().map(|s| (s.start, s.text, s.highlighted)).collect();
    assert_eq!(
        got,
        vec![
            (0, " 1 zsh ".to_string(), true),
            (8, " 2 vim ".to_string(), false),
            (27, " current zsh ".to_string(), true),
        ]
    );
    let narrow = status_bar_layout(20, &tabs, "zsh");
    let got: Vec<(usize, String)> = narrow.into_iter().map(|s| (s.start, s.text)).collect();
    assert_eq!(got, vec![(0, " 1 ...".to_string()), (7, " current zsh ".to_string())]);
    assert!(status_bar_layout(0, &tabs, "zsh").is_empty());
}

#[test]
fn command_palette_selection() {
    let mut st = State::new();
    assert_eq!(st.selected(), None);
    st.select_next();
    assert_eq!(st.selected(), Some(0));
    st.select_prev();
    assert_eq!(st.selected(), Some(3));
    st.select_next();
    assert_eq!(st.selected(), Some(0));
    st.reset();
    st.select_prev();
    assert_eq!(st.selected(), Some(3));
    assert_eq!(st.submit(), Some(UiAction::Prev));
    assert_eq!(st.selected(), None);
    assert_eq!(st.submit(), None);
}

#[test]
fn command_palette_runs_the_highlighted_match() {
    let mut st = State::new();
    st.set_query("prev");
    st.select_next();
    assert_eq!(st.selected(), Some(0));
    assert_eq!(st.submit(), Some(UiAction::Prev));
    assert_eq!(st.selected(), None);
    st.select_next();
    st.select_next();
    assert_eq!(st.selected(), Some(1));
    assert_eq!(st.submit(), None);
    assert_eq!(st.selected(), Some(1));
}

#[test]
fn command_palette_takes_the_longest_query() {
    let mut st = State::new();
    st.set_query(&"e".repeat(pyonji::palette::MAX_NEEDLE_CHARS));
    assert!(st.filtered_items().is_empty());
}

#[test]
fn command_palette_filtering() {
    let mut st = State::new();
    let all: Vec<String> = st.filtered_items().into_iter().map(|c| c.name).collect();
    assert_eq!(all, vec!["close", "next", "prev", "new"]);
    st.set_query("ne");
    let found: Vec<String> = st.filtered_items().into_iter().map(|c| c.name).collect();
    assert!(found.contains(&"next".to_string()));
    assert!(found.contains(&"new".to_string()));
    assert!(!found.contains(&"close".to_string()));
    st.set_query("zzz");
    assert!(st.filtered_items().is_empty());
}

#[test]
fn command_palette_completion() {
    let mut st = State::new();
    assert!(!st.complete());
    st.set_query("clo");
    st.select_next();
    assert!(st.complete());
    assert_eq!(st.query(), "close");
    st.set_query("zzz");
    assert!(!st.complete());
    assert_eq!(st.query(), "zzz");
}

#[test]
fn ranking_keeps_ties_in_order() {
    let scores = vec![Some(3), None, Some(7), Some(3), Some(9)];
    assert_eq!(rank_by_score(&scores), vec![4, 2, 0, 3]);
    assert!(rank_by_score(&vec![None, None]).is_empty());
}

#[test]
fn palette_query_words() {
    assert_eq!(command_name("switch 3"), "switch");
    assert_eq!(command_name("next"), "next");
    assert_eq!(command_args("switch 3"), vec!["3".to_string()]);
    assert_eq!(command_args("close"), Vec::<String>::new());
    assert_eq!(command_args("a  b"), vec!["".to_string(), "b".to_string()]);
}

#[test]
fn parsing_numbers() {
    assert_eq!(parse_usize("42"), Some(42));
    assert_eq!(parse_usize("+7"), Some(7));
    assert_eq!(parse_usize(""), None);
    assert_eq!(parse_usize("+"), None);
    assert_eq!(parse_usize("-1"), None);
    assert_eq!(parse_usize("4x"), None);
    assert_eq!(parse_usize("18446744073709551615"), Some(usize::MAX));
    assert_eq!(parse_usize("18446744073709551616"), None);
    assert_eq!(switch_command_target("3"), Some(2));
    assert_eq!(switch_command_target("9"), Some(8));
    assert_eq!(switch_command_target("0"), None);
    assert_eq!(switch_command_target("10"), None);
    assert_eq!(switch_command_target("two"), None);
}

#[test]
fn overlay_keys() {
    let mut o = Overlay::new();
    assert!(!o.shown());
    assert_eq!(o.handle_input(KeyCode::Escape, true, false), OverlayKey::Changed);
    assert!(o.shown());
    assert_eq!(o.handle_input(KeyCode::KeyS, true, true), OverlayKey::Changed);
    assert_eq!(o.screen, Screen::Sessions);
    assert_eq!(o.handle_input(KeyCode::KeyS, true, false), OverlayKey::ToScreen(Screen::Sessions));
    assert_eq!(o.handle_input(KeyCode::KeyO, false, true), OverlayKey::Ignored);
    o.show(Screen::Releases);
    assert_eq!(o, Overlay { shown: true, screen: Screen::Releases });
    o.toggle();
    assert!(!o.shown());
}

fn plain() -> TextModifiers {
    TextModifiers {
        bold: false,
        dim: false,
        italic: false,
        underlined: false,
        slow_blink: false,
        rapid_blink: false,
        reversed: false,
        hidden: false,
        crossed_out: false,
    }
}

#[test]
fn text_attribute_changes() {
    let bold_dim = TextModifiers { bold: true, dim: true, ..plain() };
    let dim = TextModifiers { dim: true, ..plain() };
    assert_eq!(modifier_commands(bold_dim, dim), vec![Attribute::NormalIntensity, Attribute::Dim]);
    assert_eq!(modifier_commands(plain(), bold_dim), vec![Attribute::Bold, Attribute::Dim]);
    let rev_italic = TextModifiers { reversed: true, italic: true, ..plain() };
    assert_eq!(
        modifier_commands(rev_italic, TextModifiers { underlined: true, ..plain() }),
        vec![Attribute::NoReverse, Attribute::NoItalic, Attribute::Underlined]
    );
    assert!(modifier_commands(dim, dim).is_empty());
    let both_blink = TextModifiers { slow_blink: true, rapid_blink: true, ..plain() };
    assert_eq!(modifier_commands(both_blink, plain()), vec![Attribute::NoBlink]);
}

fn cell(x: u16, y: u16, symbol: &str, fg: UiColor, modifiers: TextModifiers) -> DrawCell {
    DrawCell { x, y, symbol: symbol.to_string(), fg, bg: UiColor::Reset, modifiers }
}

fn describe(ops: Vec<DrawOp>) -> Vec<String> {
    ops.into_iter()
        .map(|op| match op {
            DrawOp::MoveTo(x, y) => format!("move {} {}", x, y),
            DrawOp::SetAttribute(a) => format!("attr {:?}", a),
            DrawOp::SetColors(f, b) => format!("colors {:?} {:?}", f, b),
            DrawOp::Print(t) => format!("print {}", t),
            DrawOp::ResetForeground => "reset fg".to_string(),
            DrawOp::ResetBackground => "reset bg".to_string(),
            DrawOp::ResetAttributes => "reset attrs".to_string(),
        })
        .collect()
}

#[test]
fn overlay_draw_commands() {
    let bold = TextModifiers { bold: true, ..plain() };
    let cells = vec![
        cell(0, 0, "a", UiColor::Reset, plain()),
        cell(1, 0, "b", UiColor::Red, plain()),
        cell(2, 0, "c", UiColor::Red, bold),
        cell(0, 1, "d", UiColor::Red, bold),
    ];
    assert_eq!(
        describe(draw_commands(&cells)),
        vec![
            "move 0 0",
            "print a",
            "colors Red Reset",
            "print b",
            "attr Bold",
            "print c",
            "move 0 1",
            "print d",
            "reset fg",
            "reset bg",
            "reset attrs",
        ]
    );
    assert_eq!(describe(draw_commands(&vec![])), vec!["reset fg", "reset bg", "reset attrs"]);
}
