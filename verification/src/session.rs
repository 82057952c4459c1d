use vstd::prelude::*;

use vstd::utf8::{decode_utf8, valid_utf8};

use crate::input::{decimal_ascii, push_decimal_ascii};
use crate::keys::{position, position_of, slice_chars, Modifiers};
use crate::text::{chars_of, decimal, push_decimal, string_of, trim_chars, trimmed};
use crate::SessionId;

verus! {

/// What the terminal side reports to the window.
#[derive(Debug)]
pub enum Event {
    /// The session's program has ended.
    Closed(SessionId),
    /// The session's program wrote these bytes.
    Data(SessionId, Vec<u8>),
    /// The session's program is now this one.
    ProgramChanged((SessionId, String)),
    /// The configuration file has changed.
    ConfigChanged,
}

/// Hands out session identifiers: 0, 1, 2, ... in order.
pub struct SessionIds {
    next: u64,
}

impl View for SessionIds {
    type V = nat;

    /// The next identifier to hand out.
    closed spec fn view(&self) -> nat {
        self.next as nat
    }
}

impl SessionIds {
    /// A generator whose first identifier is 0.
    pub fn new() -> (r: Self)
        ensures
            r@ == 0,
    {
        SessionIds { next: 0 }
    }

    /// Whether another identifier can be handed out.
    pub fn can_allocate(&self) -> (r: bool)
        ensures
            r == (self@ < u64::MAX),
    {
        self.next < u64::MAX
    }

    /// The next identifier; each call returns one more than the one before.
    pub fn allocate(&mut self) -> (r: SessionId)
        requires
            old(self)@ < u64::MAX,
        ensures
            r.0 == old(self)@,
            final(self)@ == old(self)@ + 1,
    {
        let id = SessionId(self.next);
        self.next = self.next + 1;
        id
    }
}

/// Two identifiers handed out by successive calls differ: a generator never
/// hands out the same identifier twice.
pub proof fn law_session_ids_distinct(before: nat, first: SessionId, middle: nat, second: SessionId)
    requires
        first.0 == before,
        middle >= before + 1,
        second.0 == middle,
    ensures
        first != second,
{
}

impl SessionId {
    /// The identifier in decimal.
    pub fn label(&self) -> (r: String)
        ensures
            r@ == decimal(self.0 as nat),
    {
        let mut out: Vec<char> = Vec::new();
        push_decimal(&mut out, self.0);
        assert(Seq::<char>::empty() + decimal(self.0 as nat) =~= decimal(self.0 as nat));
        string_of(&out)
    }
}

/// Which mouse events the terminal program asked to receive.
#[derive(Clone, Copy, Debug, PartialEq, Eq, Structural)]
pub enum MouseMode {
    Disabled,
    Press,
    PressRelease,
    ButtonMotion,
    AnyMotion,
}

/// How the terminal program asked mouse events to be encoded.
#[derive(Clone, Copy, Debug, PartialEq, Eq, Structural)]
pub enum MouseEncoding {
    Default,
    Utf8,
    Sgr,
}

/// A mouse button.
#[derive(Clone, Copy, Debug, PartialEq, Eq, Structural)]
pub enum MouseButton {
    Left,
    Right,
    Middle,
    Back,
    Forward,
    Other(u16),
}

/// What happened with the mouse.
#[derive(Clone, Copy, Debug, PartialEq, Eq, Structural)]
pub enum MouseAction {
    Press,
    Release,
    Motion,
}

/// The modifier bits of a mouse report: 4 for Shift, 8 for Alt, 16 for
/// Ctrl.
pub open spec fn mouse_mod_bits(mods: Modifiers) -> int {
    (if mods.shift {
        4int
    } else {
        0
    }) + (if mods.alt {
        8int
    } else {
        0
    }) + (if mods.control {
        16int
    } else {
        0
    })
}

/// The button code of a mouse report, or `None` when the mode asked for no
/// report of this kind (or a press is of a button other than the three main
/// ones).
pub open spec fn mouse_code(
    action: MouseAction,
    button: Option<MouseButton>,
    mods: Modifiers,
    mode: MouseMode,
) -> Option<u8> {
    let allowed = match action {
        MouseAction::Press => mode != MouseMode::Disabled,
        MouseAction::Release => mode == MouseMode::PressRelease || mode == MouseMode::ButtonMotion
            || mode == MouseMode::AnyMotion,
        MouseAction::Motion => mode == MouseMode::ButtonMotion || mode == MouseMode::AnyMotion,
    };
    let base: Option<int> = match action {
        MouseAction::Release => Some(3),
        MouseAction::Motion => Some(
            match button {
                Some(MouseButton::Left) => 32,
                Some(MouseButton::Middle) => 33,
                Some(MouseButton::Right) => 34,
                _ => 35,
            },
        ),
        MouseAction::Press => match button {
            Some(MouseButton::Left) => Some(0),
            Some(MouseButton::Middle) => Some(1),
            Some(MouseButton::Right) => Some(2),
            _ => None,
        },
    };
    if !allowed || base is None {
        None
    } else {
        Some((base->0 + mouse_mod_bits(mods)) as u8)
    }
}

/// The bytes of a mouse report: `ESC [ < code ; col ; row M` (`m` for a
/// release) in SGR encoding; otherwise `ESC [ M` and the code, column and
/// row each plus 32 as single bytes, or nothing when one of them does not
/// fit in a byte.
pub open spec fn mouse_report(
    code: u8,
    release: bool,
    col: u16,
    row: u16,
    encoding: MouseEncoding,
) -> Seq<u8> {
    match encoding {
        MouseEncoding::Sgr => seq![0x1bu8, 0x5bu8, 0x3cu8] + decimal_ascii(code as nat) + seq![
            0x3bu8,
        ] + decimal_ascii(col as nat) + seq![0x3bu8] + decimal_ascii(row as nat) + seq![
            if release {
                0x6du8
            } else {
                0x4du8
            },
        ],
        _ => {
            if code + 32 > 255 || col + 32 > 255 || row + 32 > 255 {
                Seq::empty()
            } else {
                seq![0x1bu8, 0x5bu8, 0x4du8, (code + 32) as u8, (col + 32) as u8, (row + 32) as u8]
            }
        },
    }
}

/// The report of a mouse event, if the mode asks for one (see `mouse_code`
/// and `mouse_report`).
pub open spec fn mouse_event_report(
    action: MouseAction,
    button: Option<MouseButton>,
    mods: Modifiers,
    col: u16,
    row: u16,
    mode: MouseMode,
    encoding: MouseEncoding,
) -> Seq<u8> {
    match mouse_code(action, button, mods, mode) {
        Some(code) => mouse_report(code, action == MouseAction::Release, col, row, encoding),
        None => Seq::empty(),
    }
}

/// The button code of a mouse report (see `mouse_code`).
pub fn mouse_event_code(
    action: MouseAction,
    button: Option<MouseButton>,
    mods: Modifiers,
    mode: MouseMode,
) -> (r: Option<u8>)
    ensures
        r == mouse_code(action, button, mods, mode),
{
    let allowed = match action {
        MouseAction::Press => mode != MouseMode::Disabled,
        MouseAction::Release => mode == MouseMode::PressRelease || mode == MouseMode::ButtonMotion
            || mode == MouseMode::AnyMotion,
        MouseAction::Motion => mode == MouseMode::ButtonMotion || mode == MouseMode::AnyMotion,
    };
    if !allowed {
        return None;
    }
    let mut code: u8 = match action {
        MouseAction::Release => 3,
        MouseAction::Motion => match button {
            Some(MouseButton::Left) => 32,
            Some(MouseButton::Middle) => 33,
            Some(MouseButton::Right) => 34,
            _ => 35,
        },
        MouseAction::Press => match button {
            Some(MouseButton::Left) => 0,
            Some(MouseButton::Middle) => 1,
            Some(MouseButton::Right) => 2,
            _ => return None,
        },
    };
    if mods.shift {
        code += 4;
    }
    if mods.alt {
        code += 8;
    }
    if mods.control {
        code += 16;
    }
    Some(code)
}

/// The bytes of a mouse report (see `mouse_report`).
pub fn mouse_sequence(code: u8, release: bool, col: u16, row: u16, encoding: MouseEncoding) -> (r:
    Vec<u8>)
    ensures
        r@ == mouse_report(code, release, col, row, encoding),
{
    let mut out: Vec<u8> = Vec::new();
    match encoding {
        MouseEncoding::Sgr => {
            out.push(0x1b);
            out.push(0x5b);
            out.push(0x3c);
            push_decimal_ascii(&mut out, code as u64);
            out.push(0x3b);
            push_decimal_ascii(&mut out, col as u64);
            out.push(0x3b);
            push_decimal_ascii(&mut out, row as u64);
            out.push(
                if release {
                    0x6d
                } else {
                    0x4d
                },
            );
            assert(out@ =~= mouse_report(code, release, col, row, encoding));
        },
        _ => {
            if code <= 223 && col <= 223 && row <= 223 {
                out.push(0x1b);
                out.push(0x5b);
                out.push(0x4d);
                out.push(code + 32);
                out.push(col as u8 + 32);
                out.push(row as u8 + 32);
                assert(out@ =~= mouse_report(code, release, col, row, encoding));
            }
        },
    }
    out
}

/// The report of a mouse event (see `mouse_event_report`).
pub fn send_mouse_event(
    action: MouseAction,
    button: Option<MouseButton>,
    mods: Modifiers,
    col: u16,
    row: u16,
    mode: MouseMode,
    encoding: MouseEncoding,
) -> (r: Vec<u8>)
    ensures
        r@ == mouse_event_report(action, button, mods, col, row, mode, encoding),
{
    match mouse_event_code(action, button, mods, mode) {
        Some(code) => mouse_sequence(code, action == MouseAction::Release, col, row, encoding),
        None => Vec::new(),
    }
}

/// The mouse state of a terminal session: the button held down and the last
/// cell reported.
pub struct MouseTracker {
    pub pressed_button: Option<MouseButton>,
    pub last_cell: Option<(u16, u16)>,
}

impl MouseTracker {
    /// No button held, no cell reported.
    pub fn new() -> (r: Self)
        ensures
            r.pressed_button is None,
            r.last_cell is None,
    {
        MouseTracker { pressed_button: None, last_cell: None }
    }

    /// A button went down (`pressed`) or up at `(col, row)`. Returns the
    /// report to send to the terminal program. When the program asked for no
    /// mouse events nothing is sent and no button counts as held.
    pub fn handle_button(
        &mut self,
        button: MouseButton,
        pressed: bool,
        mods: Modifiers,
        col: u16,
        row: u16,
        mode: MouseMode,
        encoding: MouseEncoding,
    ) -> (r: Vec<u8>)
        ensures
            mode == MouseMode::Disabled ==> r@ == Seq::<u8>::empty() && final(self).pressed_button
                is None && final(self).last_cell == old(self).last_cell,
            mode != MouseMode::Disabled ==> {
                &&& r@ == mouse_event_report(
                    if pressed {
                        MouseAction::Press
                    } else {
                        MouseAction::Release
                    },
                    Some(button),
                    mods,
                    col,
                    row,
                    mode,
                    encoding,
                )
                &&& final(self).pressed_button == if pressed {
                    Some(button)
                } else {
                    None
                }
                &&& final(self).last_cell == Some((col, row))
            },
    {
        if mode == MouseMode::Disabled {
            self.pressed_button = None;
            return Vec::new();
        }
        let out = if pressed {
            self.pressed_button = Some(button);
            send_mouse_event(MouseAction::Press, Some(button), mods, col, row, mode, encoding)
        } else {
            let out = send_mouse_event(
                MouseAction::Release,
                Some(button),
                mods,
                col,
                row,
                mode,
                encoding,
            );
            self.pressed_button = None;
            out
        };
        self.last_cell = Some((col, row));
        out
    }

    /// The mouse moved to `(col, row)`. Returns the motion report to send:
    /// only when the program asked for motion events, the cell differs from
    /// the last one reported, and (for button-motion mode) a button is held.
    pub fn handle_move(
        &mut self,
        mods: Modifiers,
        col: u16,
        row: u16,
        mode: MouseMode,
        encoding: MouseEncoding,
    ) -> (r: Vec<u8>)
        ensures
            final(self).pressed_button == old(self).pressed_button,
            ({
                let button = match mode {
                    MouseMode::ButtonMotion => old(self).pressed_button,
                    MouseMode::AnyMotion => Some(
                        match old(self).pressed_button {
                            Some(b) => b,
                            None => MouseButton::Other(0),
                        },
                    ),
                    _ => None,
                };
                if old(self).last_cell == Some((col, row)) || button is None {
                    r@ == Seq::<u8>::empty() && final(self).last_cell == old(self).last_cell
                } else {
                    r@ == mouse_event_report(
                        MouseAction::Motion,
                        button,
                        mods,
                        col,
                        row,
                        mode,
                        encoding,
                    ) && final(self).last_cell == Some((col, row))
                }
            }),
    {
        if mode == MouseMode::Disabled {
            return Vec::new();
        }
        let same = match self.last_cell {
            Some((c, r)) => c == col && r == row,
            None => false,
        };
        if same {
            return Vec::new();
        }
        let button = match mode {
            MouseMode::ButtonMotion => match self.pressed_button {
                Some(b) => b,
                None => return Vec::new(),
            },
            MouseMode::AnyMotion => match self.pressed_button {
                Some(b) => b,
                None => MouseButton::Other(0),
            },
            _ => return Vec::new(),
        };
        let out = send_mouse_event(MouseAction::Motion, Some(button), mods, col, row, mode, encoding);
        self.last_cell = Some((col, row));
        out
    }

    /// The wheel turned (`up` for a positive number of lines) over
    /// `(col, row)`. Returns the wheel report (button code 64 up, 65 down,
    /// plus the modifier bits); nothing when the program asked for no mouse
    /// events.
    pub fn handle_wheel(
        &mut self,
        up: bool,
        mods: Modifiers,
        col: u16,
        row: u16,
        mode: MouseMode,
        encoding: MouseEncoding,
    ) -> (r: Vec<u8>)
        ensures
            final(self).pressed_button == old(self).pressed_button,
            mode == MouseMode::Disabled ==> r@ == Seq::<u8>::empty() && final(self).last_cell == old(
                self,
            ).last_cell,
            mode != MouseMode::Disabled ==> r@ == mouse_report(
                ((if up {
                    64int
                } else {
                    65
                }) + mouse_mod_bits(mods)) as u8,
                false,
                col,
                row,
                encoding,
            ) && final(self).last_cell == Some((col, row)),
    {
        if mode == MouseMode::Disabled {
            return Vec::new();
        }
        let mut code: u8 = if up {
            64
        } else {
            65
        };
        if mods.shift {
            code += 4;
        }
        if mods.alt {
            code += 8;
        }
        if mods.control {
            code += 16;
        }
        let out = mouse_sequence(code, false, col, row, encoding);
        self.last_cell = Some((col, row));
        out
    }
}

/// Whether wheel and scroll input moves the local scrollback: the program is
/// on the main screen and asked for no mouse events.
pub fn uses_local_scrollback(alternate_screen: bool, mode: MouseMode) -> (r: bool)
    ensures
        r == (!alternate_screen && mode == MouseMode::Disabled),
{
    !alternate_screen && mode == MouseMode::Disabled
}

/// The scrollback offset after scrolling `delta_lines` from `current`
/// (positive is back into the history), saturating at both ends of `usize`.
pub fn scrollback_target(current: usize, delta_lines: i32) -> (r: usize)
    ensures
        r == if current + delta_lines < 0 {
            0
        } else if current + delta_lines > usize::MAX {
            usize::MAX as int
        } else {
            current + delta_lines
        },
{
    if delta_lines > 0 {
        current.saturating_add(delta_lines as usize)
    } else {
        let back: u32 = if delta_lines == i32::MIN {
            2147483648
        } else {
            (-delta_lines) as u32
        };
        current.saturating_sub(back as usize)
    }
}

/// Where a scroll of `delta_lines` (positive is back into the history)
/// moves the local scrollback from `current`: `None` when the terminal
/// program takes wheel input itself (it is on the alternate screen or asked
/// for mouse events) or when there is nothing to scroll; otherwise the
/// offset to move to (see `scrollback_target`).
pub fn scroll_request(alternate_screen: bool, mode: MouseMode, current: usize, delta_lines: i32) -> (r:
    Option<usize>)
    ensures
        r == if !(!alternate_screen && mode == MouseMode::Disabled) || delta_lines == 0 {
            None::<usize>
        } else {
            Some(
                (if current + delta_lines < 0 {
                    0
                } else if current + delta_lines > usize::MAX {
                    usize::MAX as int
                } else {
                    current + delta_lines
                }) as usize,
            )
        },
{
    if !uses_local_scrollback(alternate_screen, mode) || delta_lines == 0 {
        return None;
    }
    Some(scrollback_target(current, delta_lines))
}

/// The shape of the text cursor.
#[derive(Clone, Copy, Debug, PartialEq, Eq, Structural)]
pub enum CursorState {
    Bar,
    Block,
    Underline,
}

/// `ESC [ <d> SP q` for a digit character `d`.
pub open spec fn cursor_sequence(d: char) -> Seq<char> {
    seq!['\u{1b}', '[', d, ' ', 'q']
}

/// The cursor shape that an escape sequence asks for, if it is a cursor
/// shape request: 1 and 2 a block, 3 and 4 an underline, 0, 5 and 6 a bar.
pub open spec fn cursor_style_of(seq_text: Seq<char>) -> Option<CursorState> {
    if seq_text == cursor_sequence('1') || seq_text == cursor_sequence('2') {
        Some(CursorState::Block)
    } else if seq_text == cursor_sequence('3') || seq_text == cursor_sequence('4') {
        Some(CursorState::Underline)
    } else if seq_text == cursor_sequence('0') || seq_text == cursor_sequence('5')
        || seq_text == cursor_sequence('6') {
        Some(CursorState::Bar)
    } else {
        None
    }
}

/// The cursor shape after a series of escape sequences: the last shape
/// request wins; `current` when there is none.
pub open spec fn cursor_style_after(texts: Seq<Seq<char>>, current: CursorState) -> CursorState
    decreases texts.len(),
{
    if texts.len() == 0 {
        current
    } else {
        match cursor_style_of(texts.last()) {
            Some(s) => s,
            None => cursor_style_after(texts.drop_last(), current),
        }
    }
}

/// The cursor shape that one escape sequence asks for (see
/// `cursor_style_of`).
pub fn cursor_style_request(seq_text: &Vec<char>) -> (r: Option<CursorState>)
    ensures
        r == cursor_style_of(seq_text@),
{
    if seq_text.len() != 5 || seq_text[0] != '\u{1b}' || seq_text[1] != '[' || seq_text[3] != ' '
        || seq_text[4] != 'q' {
        proof {
            if seq_text@.len() == 5 {
                assert(cursor_sequence('0')[0] == '\u{1b}' && cursor_sequence('0')[1] == '['
                    && cursor_sequence('0')[3] == ' ' && cursor_sequence('0')[4] == 'q');
                assert(forall|d: char|
                    #![trigger cursor_sequence(d)]
                    cursor_sequence(d)[0] == '\u{1b}' && cursor_sequence(d)[1] == '['
                        && cursor_sequence(d)[3] == ' ' && cursor_sequence(d)[4] == 'q');
            }
        }
        return None;
    }
    let d = seq_text[2];
    proof {
        assert(seq_text@ =~= cursor_sequence(d));
        assert(forall|e: char| #![trigger cursor_sequence(e)] cursor_sequence(e)[2] == e);
    }
    if d == '1' || d == '2' {
        Some(CursorState::Block)
    } else if d == '3' || d == '4' {
        Some(CursorState::Underline)
    } else if d == '0' || d == '5' || d == '6' {
        Some(CursorState::Bar)
    } else {
        None
    }
}

/// The cursor shape after a series of escape sequences (see
/// `cursor_style_after`).
pub fn cursor_style_for_sequences(texts: &Vec<Vec<char>>, current: CursorState) -> (r:
    CursorState)
    ensures
        r == cursor_style_after(texts@.map_values(|t: Vec<char>| t@), current),
{
    let ghost all = texts@.map_values(|t: Vec<char>| t@);
    let mut style = current;
    let mut i: usize = 0;
    while i < texts.len()
        invariant
            i <= texts@.len(),
            all == texts@.map_values(|t: Vec<char>| t@),
            style == cursor_style_after(all.take(i as int), current),
        decreases texts.len() - i,
    {
        assert(all.take(i + 1).drop_last() =~= all.take(i as int));
        assert(all.take(i + 1).last() == texts@[i as int]@);
        if let Some(s) = cursor_style_request(&texts[i]) {
            style = s;
        }
        i = i + 1;
    }
    assert(all.take(texts@.len() as int) =~= all);
    style
}

/// Whether `c` ends a control sequence (a final character `@` to `~`).
pub open spec fn ends_sequence(c: char) -> bool {
    0x40 <= (c as u32) <= 0x7e
}

/// The first index at or after `k` whose character ends a control sequence.
pub open spec fn sequence_end(t: Seq<char>, k: int) -> Option<int>
    decreases t.len() - k,
{
    if k < 0 || k >= t.len() {
        None
    } else if ends_sequence(t[k]) {
        Some(k)
    } else {
        sequence_end(t, k + 1)
    }
}

/// The control sequences of `t` from index `i` on, in order: each starts
/// with ESC `[` and runs to the first final character after it; the search
/// stops at an introducer that no final character follows.
pub open spec fn sequences_from(t: Seq<char>, i: int) -> Seq<Seq<char>>
    decreases t.len() - i,
{
    if i < 0 || i + 2 > t.len() {
        Seq::empty()
    } else if t[i] == '\x1b' && t[i + 1] == '[' {
        match sequence_end(t, i + 2) {
            Some(k) => if i + 2 <= k < t.len() {
                seq![t.subrange(i, k + 1)] + sequences_from(t, k + 1)
            } else {
                Seq::empty()
            },
            None => Seq::empty(),
        }
    } else {
        sequences_from(t, i + 1)
    }
}

/// The control sequences of a text, in order.
pub open spec fn control_sequences(text: Seq<char>) -> Seq<Seq<char>> {
    sequences_from(text, 0)
}

/// `cansi::parse`: the control sequences in `text`, in order, each given by
/// its text. Claimed: they are `control_sequences` of the text (cansi looks
/// for ESC `[` and takes everything up to the next byte in `0x40..=0x7e`;
/// bytes of characters beyond ASCII never fall in that range, so reading it
/// by characters gives the same sequences).
#[verifier::external_body]
fn escape_sequences(text: &str) -> (r: Vec<Vec<char>>)
    ensures
        r@.map_values(|t: Vec<char>| t@) == control_sequences(text@),
{
    cansi::parse(text).into_iter().map(|m| m.text.chars().collect()).collect()
}

/// `std::str::from_utf8`: the text of `data` when it is valid UTF-8.
/// Claimed: `Some` exactly for valid UTF-8, holding its decoding.
#[verifier::external_body]
fn utf8_text(data: &[u8]) -> (r: Option<String>)
    ensures
        r is Some <==> valid_utf8(data@),
        r matches Some(s) ==> s@ == decode_utf8(data@),
{
    std::str::from_utf8(data).ok().map(|s| s.to_string())
}

/// The cursor shape after the terminal program wrote `data`: output that is
/// not valid UTF-8 leaves it as it was; otherwise the last cursor shape
/// request among its escape sequences wins.
pub fn cursor_style_for_output(data: &[u8], current: CursorState) -> (r: CursorState)
    ensures
        !valid_utf8(data@) ==> r == current,
        valid_utf8(data@) ==> r == cursor_style_after(
            control_sequences(decode_utf8(data@)),
            current,
        ),
{
    let text = match utf8_text(data) {
        Some(t) => t,
        None => return current,
    };
    let sequences = escape_sequences(text.as_str());
    cursor_style_for_sequences(&sequences, current)
}

/// Whether `s` is a single plain path component on every platform: not
/// empty, without `/`, `\\` or `:`, and neither `.` nor `..`.
pub open spec fn plain_component(s: Seq<char>) -> bool {
    &&& s.len() > 0
    &&& !s.contains('/')
    &&& !s.contains('\\')
    &&& !s.contains(':')
    &&& s != seq!['.']
    &&& s != seq!['.', '.']
}

/// `Path::file_name` of a title taken as a path, shown as text. What the
/// result is for other titles depends on the platform's path syntax; claimed
/// on every platform: a title that is a single plain component is its own
/// file name, and a file name is never empty and never holds `/`.
#[verifier::external_body]
fn file_name_of(title: &str) -> (r: Option<String>)
    ensures
        plain_component(title@) ==> r is Some && r->0@ == title@,
        r matches Some(s) ==> s@.len() > 0 && !s@.contains('/'),
{
    std::path::Path::new(title).file_name().map(|file| file.display().to_string())
}

/// The program name shown for a window title: the trimmed text after the
/// first `-` when there is one; otherwise the last component of the title
/// read as a path (as the platform reads paths): the title itself when it
/// is a single plain component, and never an empty name or one with `/`.
pub fn parse_title(title: &str) -> (r: Option<String>)
    ensures
        position_of(title@, '-') matches Some(i) ==> r is Some && r->0@ == trimmed(
            title@.skip(i + 1),
        ),
        position_of(title@, '-') is None && plain_component(title@) ==> r is Some && r->0@
            == title@,
        position_of(title@, '-') is None ==> (r matches Some(s) ==> s@.len() > 0 && !s@.contains(
            '/',
        )),
{
    let chars = chars_of(title);
    match position(&chars, '-') {
        Some(i) => {
            let n = chars.len();
            proof {
                crate::keys::lemma_position_of(chars@, '-');
            }
            let rest = slice_chars(&chars, i + 1, n);
            assert(rest@ =~= title@.skip(i + 1));
            let t = trim_chars(&rest);
            Some(string_of(&t))
        },
        None => file_name_of(title),
    }
}

/// The program name for a window title given as bytes: nothing when they
/// are not valid UTF-8, otherwise as `parse_title` reads it.
pub fn title_from_bytes(title: &[u8]) -> (r: Option<String>)
    ensures
        !valid_utf8(title@) ==> r is None,
        valid_utf8(title@) ==> (position_of(decode_utf8(title@), '-') matches Some(i) ==> r is Some
            && r->0@ == trimmed(decode_utf8(title@).skip(i + 1))),
        valid_utf8(title@) && position_of(decode_utf8(title@), '-') is None && plain_component(
            decode_utf8(title@),
        ) ==> r is Some && r->0@ == decode_utf8(title@),
        valid_utf8(title@) && position_of(decode_utf8(title@), '-') is None ==> (r matches Some(s)
            ==> s@.len() > 0 && !s@.contains('/')),
{
    match utf8_text(title) {
        Some(t) => parse_title(t.as_str()),
        None => None,
    }
}

} // verus!
