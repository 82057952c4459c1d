use vstd::prelude::*;

use crate::keys::{slice_chars, KeyCode};
use crate::text::{chars_of, push_str, string_of, trim_chars, trimmed};

verus! {

/// What the status-line prompt is asking for.
#[derive(Clone, Copy, Debug, PartialEq, Eq, Structural)]
pub enum Mode {
    Command,
    Rename,
    Lua,
}

/// What a status-line prompt is, as a value: its mode, the text typed (as
/// characters), the cursor (a character index), the entries submitted before
/// and the entry being recalled from them.
pub struct PromptView {
    pub mode: Mode,
    pub buffer: Seq<char>,
    pub cursor: nat,
    pub history: Seq<Seq<char>>,
    pub history_index: Option<nat>,
}

/// A one-line text prompt with a cursor and a history of submitted entries.
pub struct Prompt {
    mode: Mode,
    buffer: Vec<char>,
    cursor: usize,
    history: Vec<Vec<char>>,
    history_index: Option<usize>,
}

/// The views of the history entries.
pub open spec fn entries(h: Seq<Vec<char>>) -> Seq<Seq<char>> {
    h.map_values(|e: Vec<char>| e@)
}

impl View for Prompt {
    type V = PromptView;

    closed spec fn view(&self) -> PromptView {
        PromptView {
            mode: self.mode,
            buffer: self.buffer@,
            cursor: self.cursor as nat,
            history: entries(self.history@),
            history_index: match self.history_index {
                Some(i) => Some(i as nat),
                None => None,
            },
        }
    }
}

/// The characters of an optional string.
pub open spec fn opt_chars(text: Option<&str>) -> Option<Seq<char>> {
    match text {
        Some(t) => Some(t@),
        None => None,
    }
}

/// What the prompt shows in the status line.
pub struct StatusInput {
    pub prompt: String,
    pub text: String,
    pub cursor_col: usize,
}

/// What a key press in the prompt leads to.
pub enum PromptAction {
    /// The prompt stays open.
    Continue,
    /// The prompt closes without doing anything.
    Close,
    /// The prompt closes and its (trimmed, non-empty) input is to be carried
    /// out in its mode.
    Submit(Mode, String),
}

impl PromptView {
    /// The cursor lies within the text, and a recalled entry exists.
    pub open spec fn wf(self) -> bool {
        &&& self.cursor <= self.buffer.len()
        &&& self.history_index matches Some(i) ==> i < self.history.len()
    }
}

impl PromptView {
    /// The prompt after inserting `t` at the cursor.
    pub open spec fn inserted(self, t: Seq<char>) -> PromptView {
        PromptView {
            buffer: self.buffer.take(self.cursor as int) + t + self.buffer.skip(self.cursor as int),
            cursor: self.cursor + t.len(),
            ..self
        }
    }

    /// The prompt after deleting the character before the cursor.
    pub open spec fn deleted_before(self) -> PromptView {
        if self.cursor == 0 {
            self
        } else {
            PromptView {
                buffer: self.buffer.remove(self.cursor - 1),
                cursor: (self.cursor - 1) as nat,
                ..self
            }
        }
    }

    /// The prompt after deleting the character at the cursor (none at the
    /// end).
    pub open spec fn deleted_at(self) -> PromptView {
        if self.cursor >= self.buffer.len() {
            self
        } else {
            PromptView { buffer: self.buffer.remove(self.cursor as int), ..self }
        }
    }

    /// The prompt after recalling the entry before the one recalled (the
    /// last entry when none is), with the cursor at its end; unchanged with
    /// an empty history or when the first entry is already recalled.
    pub open spec fn recalled_prev(self) -> PromptView {
        let target: Option<nat> = if self.history.len() == 0 {
            None
        } else {
            match self.history_index {
                None => Some((self.history.len() - 1) as nat),
                Some(i) => if i > 0 {
                    Some((i - 1) as nat)
                } else {
                    None
                },
            }
        };
        match target {
            None => self,
            Some(t) => PromptView {
                buffer: self.history[t as int],
                cursor: self.history[t as int].len(),
                history_index: Some(t),
                ..self
            },
        }
    }

    /// The prompt after recalling the entry after the one recalled, with the
    /// cursor at its end; past the last entry, no entry is recalled and the
    /// text is empty. Unchanged when no entry is recalled.
    pub open spec fn recalled_next(self) -> PromptView {
        match self.history_index {
            None => self,
            Some(i) => if i + 1 < self.history.len() {
                PromptView {
                    buffer: self.history[i + 1int],
                    cursor: self.history[i + 1int].len(),
                    history_index: Some(i + 1),
                    ..self
                }
            } else {
                PromptView { buffer: Seq::empty(), cursor: 0, history_index: None, ..self }
            },
        }
    }

    /// What the prompt shows in a status line of `cols` columns: its label,
    /// the part of the text that fits, scrolled so that the cursor stays
    /// visible, and the column of the cursor.
    pub open spec fn shown(self, cols: u16) -> (Seq<char>, Seq<char>, int) {
        let label = prompt_label(self.mode);
        let left_limit: int = if cols >= 1 {
            cols as int
        } else {
            1
        };
        let room = left_limit - label.len();
        let max_cols: int = if room >= 1 {
            room
        } else {
            1
        };
        let start: int = if self.cursor >= max_cols {
            self.cursor - max_cols + 1
        } else {
            0
        };
        let end: int = if start + max_cols <= self.buffer.len() {
            start + max_cols
        } else {
            self.buffer.len() as int
        };
        (label, self.buffer.subrange(start, end), label.len() + self.cursor - start)
    }

    /// The prompt after a key press of `code` carrying `text`: Escape leaves
    /// it as it is; Enter, when the trimmed text is not empty, adds that to
    /// the history in command and Lua mode; Backspace, Delete, the arrows,
    /// Home and End edit and move; any other key inserts its text.
    pub open spec fn after_key(self, code: KeyCode, text: Option<Seq<char>>) -> PromptView {
        match code {
            KeyCode::Escape => self,
            KeyCode::Enter => {
                let input = trimmed(self.buffer);
                if input.len() == 0 || self.mode == Mode::Rename {
                    self
                } else {
                    PromptView {
                        history: history_after_push(self.history, input),
                        history_index: None,
                        ..self
                    }
                }
            },
            KeyCode::Backspace => self.deleted_before(),
            KeyCode::Delete => self.deleted_at(),
            KeyCode::ArrowLeft => self.moved_left(),
            KeyCode::ArrowRight => self.moved_right(),
            KeyCode::Home => PromptView { cursor: 0, ..self },
            KeyCode::End => PromptView { cursor: self.buffer.len(), ..self },
            KeyCode::ArrowUp => self.recalled_prev(),
            KeyCode::ArrowDown => self.recalled_next(),
            _ => match text {
                Some(t) => if t.len() > 0 {
                    self.inserted(t)
                } else {
                    self
                },
                None => self,
            },
        }
    }

    /// The prompt after moving the cursor one character left.
    pub open spec fn moved_left(self) -> PromptView {
        PromptView {
            cursor: if self.cursor == 0 {
                0
            } else {
                (self.cursor - 1) as nat
            },
            ..self
        }
    }

    /// The prompt after moving the cursor one character right.
    pub open spec fn moved_right(self) -> PromptView {
        PromptView {
            cursor: if self.cursor >= self.buffer.len() {
                self.cursor
            } else {
                self.cursor + 1
            },
            ..self
        }
    }
}

/// Deleting the character before the cursor undoes typing one character.
pub proof fn law_delete_undoes_insert(v: PromptView, c: char)
    requires
        v.wf(),
    ensures
        v.inserted(seq![c]).deleted_before() == v,
{
    let w = v.inserted(seq![c]);
    assert(w.buffer.remove(v.cursor as int) =~= v.buffer);
}

/// Moving the cursor right and then left leaves it where it was, except at
/// the end of the text; left then right, except at the start.
pub proof fn law_cursor_moves_undo(v: PromptView)
    requires
        v.wf(),
    ensures
        v.cursor < v.buffer.len() ==> v.moved_right().moved_left() == v,
        v.cursor > 0 ==> v.moved_left().moved_right() == v,
{
}

/// Browsing the history back one entry and forward again, or forward and
/// back, recalls the entry that was recalled before (with the cursor at its
/// end), away from the two ends of the history.
pub proof fn law_history_steps_undo(v: PromptView)
    requires
        v.wf(),
    ensures
        ({
            let i = v.history_index->0;
            let back_at_i = PromptView {
                buffer: v.history[i as int],
                cursor: v.history[i as int].len(),
                ..v
            };
            &&& v.history_index is Some && i > 0 ==> v.recalled_prev().recalled_next() == back_at_i
            &&& v.history_index is Some && i + 1 < v.history.len()
                ==> v.recalled_next().recalled_prev() == back_at_i
        }),
{
}

/// Delete removes the character at the cursor and leaves the cursor where
/// it is (nothing at the end of the text); Backspace removes the character
/// before the cursor and moves the cursor back onto its place (nothing at
/// the start). Neither touches the history or the mode.
pub proof fn law_delete_keys(v: PromptView, text: Option<Seq<char>>)
    requires
        v.wf(),
    ensures
        v.cursor < v.buffer.len() ==> v.after_key(KeyCode::Delete, text) == (PromptView {
            buffer: v.buffer.remove(v.cursor as int),
            ..v
        }),
        v.cursor == v.buffer.len() ==> v.after_key(KeyCode::Delete, text) == v,
        v.cursor > 0 ==> v.after_key(KeyCode::Backspace, text) == (PromptView {
            buffer: v.buffer.remove(v.cursor - 1),
            cursor: (v.cursor - 1) as nat,
            ..v
        }),
        v.cursor == 0 ==> v.after_key(KeyCode::Backspace, text) == v,
        v.cursor < v.buffer.len() ==> v.after_key(KeyCode::Delete, text).buffer.len() + 1
            == v.buffer.len() && v.after_key(KeyCode::Delete, text).buffer.take(v.cursor as int)
            == v.buffer.take(v.cursor as int) && v.after_key(KeyCode::Delete, text).buffer.skip(
            v.cursor as int,
        ) == v.buffer.skip(v.cursor as int + 1),
{
    if v.cursor < v.buffer.len() {
        let b = v.buffer.remove(v.cursor as int);
        assert(b.take(v.cursor as int) =~= v.buffer.take(v.cursor as int));
        assert(b.skip(v.cursor as int) =~= v.buffer.skip(v.cursor as int + 1));
    }
}

/// Typing text puts it at the cursor and moves the cursor past it; Home and
/// End put the cursor at the start and the end of the text; Left and Right
/// move it by one character within the text; none of them touches the
/// history or the mode.
pub proof fn law_prompt_editing_keys(v: PromptView, code: KeyCode, t: Seq<char>)
    requires
        v.wf(),
    ensures
        t.len() > 0 && code != KeyCode::Escape && code != KeyCode::Enter && code != KeyCode::Backspace
            && code != KeyCode::Delete && code != KeyCode::ArrowLeft && code != KeyCode::ArrowRight
            && code != KeyCode::Home && code != KeyCode::End && code != KeyCode::ArrowUp && code
            != KeyCode::ArrowDown ==> v.after_key(code, Some(t)) == (PromptView {
            buffer: v.buffer.take(v.cursor as int) + t + v.buffer.skip(v.cursor as int),
            cursor: v.cursor + t.len(),
            ..v
        }),
        v.after_key(KeyCode::Home, Some(t)) == (PromptView { cursor: 0, ..v }),
        v.after_key(KeyCode::End, Some(t)) == (PromptView { cursor: v.buffer.len(), ..v }),
        v.cursor > 0 ==> v.after_key(KeyCode::ArrowLeft, Some(t)) == (PromptView {
            cursor: (v.cursor - 1) as nat,
            ..v
        }),
        v.cursor < v.buffer.len() ==> v.after_key(KeyCode::ArrowRight, Some(t)) == (PromptView {
            cursor: v.cursor + 1,
            ..v
        }),
        v.after_key(KeyCode::Escape, Some(t)) == v,
{
}

/// The text shown before the input in each mode.
pub open spec fn prompt_label(mode: Mode) -> Seq<char> {
    match mode {
        Mode::Command => seq![' ', ':', ' '],
        Mode::Rename => seq![' ', 'R', ':', ' '],
        Mode::Lua => seq![' ', '>', ' '],
    }
}

/// The history after submitting `entry`: it is added unless it repeats the
/// last entry.
pub open spec fn history_after_push(h: Seq<Seq<char>>, entry: Seq<char>) -> Seq<Seq<char>> {
    if h.len() > 0 && h.last() == entry {
        h
    } else {
        h.push(entry)
    }
}

/// A copy of a character vector.
fn copy_chars(v: &Vec<char>) -> (r: Vec<char>)
    ensures
        r@ == v@,
{
    let r = slice_chars(v, 0, v.len());
    assert(r@ =~= v@);
    r
}

impl Prompt {
    /// An empty prompt in `mode`, with no history.
    pub fn new(mode: Mode) -> (r: Self)
        ensures
            r@ == (PromptView {
                mode,
                buffer: Seq::empty(),
                cursor: 0,
                history: Seq::empty(),
                history_index: None,
            }),
            r@.wf(),
    {
        let r = Prompt {
            mode,
            buffer: Vec::new(),
            cursor: 0,
            history: Vec::new(),
            history_index: None,
        };
        assert(entries(r.history@) =~= Seq::<Seq<char>>::empty());
        r
    }

    /// The prompt's mode.
    pub fn mode(&self) -> (r: Mode)
        ensures
            r == self@.mode,
    {
        self.mode
    }

    /// The text typed.
    pub fn text(&self) -> (r: String)
        ensures
            r@ == self@.buffer,
    {
        string_of(&self.buffer)
    }

    /// The cursor, as a character index into the text.
    pub fn cursor(&self) -> (r: usize)
        ensures
            r == self@.cursor,
    {
        self.cursor
    }

    /// Inserts `text` at the cursor and moves the cursor past it.
    pub fn insert(&mut self, text: &str)
        requires
            old(self)@.wf(),
        ensures
            final(self)@.wf(),
            final(self)@ == old(self)@.inserted(text@),
    {
        let chars = chars_of(text);
        let mut head = slice_chars(&self.buffer, 0, self.cursor);
        let tail = slice_chars(&self.buffer, self.cursor, self.buffer.len());
        let mut i: usize = 0;
        while i < chars.len()
            invariant
                i <= chars@.len(),
                head@ == old(self)@.buffer.take(old(self)@.cursor as int) + chars@.take(i as int),
            decreases chars.len() - i,
        {
            head.push(chars[i]);
            i = i + 1;
            assert(head@ =~= old(self)@.buffer.take(old(self)@.cursor as int) + chars@.take(
                i as int,
            ));
        }
        assert(chars@.take(chars@.len() as int) =~= chars@);
        let new_cursor = head.len();
        let mut j: usize = 0;
        while j < tail.len()
            invariant
                j <= tail@.len(),
                head@ == old(self)@.buffer.take(old(self)@.cursor as int) + chars@ + tail@.take(
                    j as int,
                ),
            decreases tail.len() - j,
        {
            head.push(tail[j]);
            j = j + 1;
            assert(head@ =~= old(self)@.buffer.take(old(self)@.cursor as int) + chars@
                + tail@.take(j as int));
        }
        assert(tail@.take(tail@.len() as int) =~= tail@);
        self.buffer = head;
        self.cursor = new_cursor;
    }

    /// Deletes the character before the cursor (none at the start).
    pub fn delete_before(&mut self)
        requires
            old(self)@.wf(),
        ensures
            final(self)@.wf(),
            final(self)@ == old(self)@.deleted_before(),
    {
        if self.cursor == 0 {
            return;
        }
        let index = self.cursor - 1;
        self.cursor = index;
        self.buffer.remove(index);
    }

    /// Deletes the character at the cursor (none at the end).
    pub fn delete_at(&mut self)
        requires
            old(self)@.wf(),
        ensures
            final(self)@.wf(),
            final(self)@ == old(self)@.deleted_at(),
    {
        if self.cursor >= self.buffer.len() {
            return;
        }
        let index = self.cursor;
        self.buffer.remove(index);
    }

    /// Moves the cursor one character left (not past the start).
    pub fn cursor_left(&mut self)
        requires
            old(self)@.wf(),
        ensures
            final(self)@.wf(),
            final(self)@ == old(self)@.moved_left(),
    {
        if self.cursor == 0 {
            return;
        }
        self.cursor = self.cursor - 1;
    }

    /// Moves the cursor one character right (not past the end).
    pub fn cursor_right(&mut self)
        requires
            old(self)@.wf(),
        ensures
            final(self)@.wf(),
            final(self)@ == old(self)@.moved_right(),
    {
        if self.cursor >= self.buffer.len() {
            return;
        }
        self.cursor = self.cursor + 1;
    }

    /// Moves the cursor to the start of the text.
    pub fn cursor_home(&mut self)
        requires
            old(self)@.wf(),
        ensures
            final(self)@.wf(),
            final(self)@ == (PromptView { cursor: 0, ..old(self)@ }),
    {
        self.cursor = 0;
    }

    /// Moves the cursor to the end of the text.
    pub fn cursor_end(&mut self)
        requires
            old(self)@.wf(),
        ensures
            final(self)@.wf(),
            final(self)@ == (PromptView { cursor: old(self)@.buffer.len(), ..old(self)@ }),
    {
        self.cursor = self.buffer.len();
    }

    /// Recalls the entry before the one recalled (the last entry when none
    /// is), with the cursor at its end. Nothing happens with an empty history
    /// or when the first entry is already recalled.
    pub fn history_prev(&mut self)
        requires
            old(self)@.wf(),
        ensures
            final(self)@.wf(),
            final(self)@ == old(self)@.recalled_prev(),
    {
        if self.history.len() == 0 {
            return;
        }
        let index = match self.history_index {
            None => self.history.len() - 1,
            Some(i) => {
                if i > 0 {
                    i - 1
                } else {
                    return;
                }
            },
        };
        let entry = copy_chars(&self.history[index]);
        proof {
            assert(entries(self.history@)[index as int] == self.history@[index as int]@);
        }
        self.history_index = Some(index);
        self.cursor = 0;
        self.buffer = entry;
        self.cursor = self.buffer.len();
    }

    /// Recalls the entry after the one recalled, with the cursor at its end;
    /// past the last entry, stops recalling and clears the text. Nothing
    /// happens when no entry is recalled.
    pub fn history_next(&mut self)
        requires
            old(self)@.wf(),
        ensures
            final(self)@.wf(),
            final(self)@ == old(self)@.recalled_next(),
    {
        match self.history_index {
            Some(index) => {
                assert(entries(self.history@).len() == self.history@.len());
                assert(index < self.history.len());
                if index + 1 < self.history.len() {
                    let entry = copy_chars(&self.history[index + 1]);
                    proof {
                        assert(entries(self.history@)[index + 1] == self.history@[index + 1]@);
                    }
                    self.history_index = Some(index + 1);
                    self.cursor = 0;
                    self.buffer = entry;
                } else {
                    self.history_index = None;
                    self.cursor = 0;
                    self.buffer = Vec::new();
                }
            },
            None => return,
        }
        self.cursor = self.buffer.len();
    }

    /// Adds `entry` to the history unless it repeats the last entry, and
    /// stops recalling.
    pub fn push_history(&mut self, entry: &str)
        requires
            old(self)@.wf(),
        ensures
            final(self)@.wf(),
            final(self)@ == (PromptView {
                history: history_after_push(old(self)@.history, entry@),
                history_index: None,
                ..old(self)@
            }),
    {
        let e = chars_of(entry);
        let n = self.history.len();
        let repeat = n > 0 && crate::keys::is_word(&self.history[n - 1], e.as_slice());
        proof {
            if n > 0 {
                assert(entries(self.history@).last() == self.history@[n - 1]@);
            }
        }
        self.history_index = None;
        if !repeat {
            let ghost before = entries(self.history@);
            self.history.push(e);
            assert(entries(self.history@) =~= before.push(entry@));
        }
    }

    /// What the prompt shows in a status line of `cols` columns: its label,
    /// then the part of the text that fits, scrolled so that the cursor stays
    /// visible, and the column of the cursor.
    pub fn display(&self, cols: u16) -> (r: StatusInput)
        requires
            self@.wf(),
        ensures
            (r.prompt@, r.text@, r.cursor_col as int) == self@.shown(cols),
    {
        let mut label: Vec<char> = Vec::new();
        match self.mode {
            Mode::Command => {
                label.push(' ');
                label.push(':');
                label.push(' ');
            },
            Mode::Rename => {
                label.push(' ');
                label.push('R');
                label.push(':');
                label.push(' ');
            },
            Mode::Lua => {
                label.push(' ');
                label.push('>');
                label.push(' ');
            },
        }
        assert(label@ =~= prompt_label(self.mode));
        let left_limit: usize = if cols >= 1 {
            cols as usize
        } else {
            1
        };
        let prompt_cols = label.len();
        let max_cols: usize = if left_limit > prompt_cols && left_limit - prompt_cols >= 1 {
            left_limit - prompt_cols
        } else {
            1
        };
        let cursor_col = self.cursor;
        let start: usize = if cursor_col >= max_cols {
            cursor_col - max_cols + 1
        } else {
            0
        };
        let end: usize = if max_cols <= self.buffer.len() - start {
            start + max_cols
        } else {
            self.buffer.len()
        };
        let visible = slice_chars(&self.buffer, start, end);
        StatusInput {
            prompt: string_of(&label),
            text: string_of(&visible),
            cursor_col: prompt_cols + (cursor_col - start),
        }
    }

    /// Handles a pressed key: Escape closes; Enter closes and, when the
    /// trimmed text is not empty, submits it (adding it to the history in
    /// command and Lua mode); Backspace, Delete, the arrows, Home and End
    /// edit and move; any other key inserts its text, if it has some.
    pub fn handle_key(&mut self, code: KeyCode, text: Option<&str>) -> (r: PromptAction)
        requires
            old(self)@.wf(),
        ensures
            final(self)@.wf(),
            final(self)@ == old(self)@.after_key(code, opt_chars(text)),
            match code {
                KeyCode::Escape => r is Close,
                KeyCode::Enter => {
                    let input = trimmed(old(self)@.buffer);
                    if input.len() == 0 {
                        r is Close
                    } else {
                        r matches PromptAction::Submit(m, s) && m == old(self)@.mode && s@ == input
                    }
                },
                _ => r is Continue,
            },
    {
        match code {
            KeyCode::Escape => PromptAction::Close,
            KeyCode::Enter => {
                let input = trim_chars(&self.buffer);
                if input.len() == 0 {
                    return PromptAction::Close;
                }
                let s = string_of(&input);
                match self.mode {
                    Mode::Rename => {},
                    _ => {
                        self.push_history(s.as_str());
                    },
                }
                PromptAction::Submit(self.mode, s)
            },
            KeyCode::Backspace => {
                self.delete_before();
                PromptAction::Continue
            },
            KeyCode::Delete => {
                self.delete_at();
                PromptAction::Continue
            },
            KeyCode::ArrowLeft => {
                self.cursor_left();
                PromptAction::Continue
            },
            KeyCode::ArrowRight => {
                self.cursor_right();
                PromptAction::Continue
            },
            KeyCode::Home => {
                self.cursor_home();
                PromptAction::Continue
            },
            KeyCode::End => {
                self.cursor_end();
                PromptAction::Continue
            },
            KeyCode::ArrowUp => {
                self.history_prev();
                PromptAction::Continue
            },
            KeyCode::ArrowDown => {
                self.history_next();
                PromptAction::Continue
            },
            _ => {
                if let Some(t) = text {
                    if !t.is_empty() {
                        self.insert(t);
                    }
                }
                PromptAction::Continue
            },
        }
    }
}

/// The message for a command that nothing handled: `unknown command: `
/// followed by the command's first word (the text up to the first space).
pub fn unknown_command_message(input: &str) -> (r: String)
    ensures
        r@ == seq![
            'u', 'n', 'k', 'n', 'o', 'w', 'n', ' ', 'c', 'o', 'm', 'm', 'a', 'n', 'd', ':', ' ',
        ] + match crate::keys::position_of(input@, ' ') {
            Some(i) => input@.take(i),
            None => input@,
        },
{
    let chars = chars_of(input);
    proof {
        crate::keys::lemma_position_of(chars@, ' ');
    }
    assert(chars@.len() == chars.len());
    let p = crate::keys::position(&chars, ' ');
    let word = match p {
        Some(i) => {
            let w = slice_chars(&chars, 0, i);
            assert(w@ =~= input@.take(i as int));
            w
        },
        None => copy_chars(&chars),
    };
    proof {
        match crate::keys::position_of(input@, ' ') {
            Some(k) => {
                assert(p == Some(k as usize));
                assert(word@ =~= input@.take(k));
            },
            None => {
                assert(word@ =~= input@);
            },
        }
    }
    let mut out: Vec<char> = Vec::new();
    crate::keys::push_chars(
        &mut out,
        &['u', 'n', 'k', 'n', 'o', 'w', 'n', ' ', 'c', 'o', 'm', 'm', 'a', 'n', 'd', ':', ' '],
    );
    let mut i: usize = 0;
    let ghost head = out@;
    while i < word.len()
        invariant
            i <= word@.len(),
            out@ == head + word@.take(i as int),
        decreases word.len() - i,
    {
        out.push(word[i]);
        i = i + 1;
        assert(out@ =~= head + word@.take(i as int));
    }
    assert(word@.take(word@.len() as int) =~= word@);
    string_of(&out)
}

/// `s` with each line break (`\n` or `\r`) replaced by a space.
pub fn single_line(s: &str) -> (r: String)
    ensures
        r@ == s@.map_values(|c: char| if c == '\n' || c == '\r' {
            ' '
        } else {
            c
        }),
{
    let chars = chars_of(s);
    let mut out: Vec<char> = Vec::new();
    let mut i: usize = 0;
    while i < chars.len()
        invariant
            i <= chars@.len(),
            out@ == chars@.take(i as int).map_values(|c: char| if c == '\n' || c == '\r' {
                ' '
            } else {
                c
            }),
        decreases chars.len() - i,
    {
        let c = chars[i];
        out.push(
            if c == '\n' || c == '\r' {
                ' '
            } else {
                c
            },
        );
        i = i + 1;
        assert(out@ =~= chars@.take(i as int).map_values(|c: char| if c == '\n' || c == '\r' {
            ' '
        } else {
            c
        }));
    }
    assert(chars@.take(chars@.len() as int) =~= chars@);
    string_of(&out)
}

/// How long a status message stays, in milliseconds.
pub const MESSAGE_TIMEOUT_MS: u64 = 5000;

/// What a status bar is, as a value: its open prompt, if any, and its
/// message with the time it was shown (in milliseconds), if any.
pub struct StatusBarView {
    pub prompt: Option<PromptView>,
    pub message: Option<(u64, Seq<char>)>,
}

/// The status line's prompt and message.
pub struct StatusBar {
    prompt: Option<Prompt>,
    message: Option<(u64, String)>,
}

impl View for StatusBar {
    type V = StatusBarView;

    closed spec fn view(&self) -> StatusBarView {
        StatusBarView {
            prompt: match self.prompt {
                Some(p) => Some(p@),
                None => None,
            },
            message: match self.message {
                Some((t, m)) => Some((t, m@)),
                None => None,
            },
        }
    }
}

impl StatusBarView {
    /// An open prompt is well formed.
    pub open spec fn wf(self) -> bool {
        self.prompt matches Some(p) ==> p.wf()
    }
}

impl StatusBar {
    /// No prompt and no message.
    pub fn new() -> (r: Self)
        ensures
            r@ == (StatusBarView { prompt: None, message: None }),
            r@.wf(),
    {
        StatusBar { prompt: None, message: None }
    }

    /// Whether a prompt is open.
    pub fn is_active(&self) -> (r: bool)
        ensures
            r == self@.prompt is Some,
    {
        self.prompt.is_some()
    }

    /// The message shown.
    pub fn message(&self) -> (r: Option<&str>)
        ensures
            match self@.message {
                Some((_, m)) => r matches Some(s) && s@ == m,
                None => r is None,
            },
    {
        match &self.message {
            Some((_, text)) => Some(text.as_str()),
            None => None,
        }
    }

    /// Shows `text`, as of the time `now`.
    pub fn show_message(&mut self, text: String, now: u64)
        requires
            old(self)@.wf(),
        ensures
            final(self)@ == (StatusBarView { message: Some((now, text@)), ..old(self)@ }),
            final(self)@.wf(),
    {
        self.message = Some((now, text));
    }

    /// When the message goes: its time plus the timeout.
    pub fn message_expiry(&self) -> (r: Option<u64>)
        requires
            self@.message matches Some((t, _)) ==> t + MESSAGE_TIMEOUT_MS <= u64::MAX,
        ensures
            match self@.message {
                Some((t, _)) => r == Some((t + MESSAGE_TIMEOUT_MS) as u64),
                None => r is None,
            },
    {
        match &self.message {
            Some((shown_at, _)) => Some(*shown_at + MESSAGE_TIMEOUT_MS),
            None => None,
        }
    }

    /// Drops the message once its time is up at `now`; returns whether it
    /// did.
    pub fn clear_message_if_expired(&mut self, now: u64) -> (r: bool)
        requires
            old(self)@.wf(),
            old(self)@.message matches Some((t, _)) ==> t + MESSAGE_TIMEOUT_MS <= u64::MAX,
        ensures
            final(self)@.wf(),
            r == (old(self)@.message matches Some((t, _)) && now >= t + MESSAGE_TIMEOUT_MS),
            final(self)@ == if r {
                StatusBarView { message: None, ..old(self)@ }
            } else {
                old(self)@
            },
    {
        let expired = match &self.message {
            Some((shown_at, _)) => now >= *shown_at + MESSAGE_TIMEOUT_MS,
            None => false,
        };
        if expired {
            self.message = None;
        }
        expired
    }

    /// Opens an empty prompt in `mode`, dropping the message.
    pub fn open(&mut self, mode: Mode)
        requires
            old(self)@.wf(),
        ensures
            final(self)@ == (StatusBarView {
                prompt: Some(
                    PromptView {
                        mode,
                        buffer: Seq::empty(),
                        cursor: 0,
                        history: Seq::empty(),
                        history_index: None,
                    },
                ),
                message: None,
            }),
            final(self)@.wf(),
    {
        self.message = None;
        self.prompt = Some(Prompt::new(mode));
    }

    /// Opens a rename prompt holding `name`, cursor at its end, dropping the
    /// message.
    pub fn open_rename(&mut self, name: &str)
        requires
            old(self)@.wf(),
        ensures
            final(self)@ == (StatusBarView {
                prompt: Some(
                    PromptView {
                        mode: Mode::Rename,
                        buffer: name@,
                        cursor: name@.len(),
                        history: Seq::empty(),
                        history_index: None,
                    },
                ),
                message: None,
            }),
            final(self)@.wf(),
    {
        self.message = None;
        let mut prompt = Prompt::new(Mode::Rename);
        if !name.is_empty() {
            prompt.insert(name);
        }
        proof {
            assert(Seq::<char>::empty().take(0) + name@ + Seq::<char>::empty().skip(0) =~= name@);
            if name@.len() == 0 {
                assert(prompt@.buffer =~= name@);
            }
        }
        self.prompt = Some(prompt);
    }

    /// What the open prompt shows in a status line of `cols` columns.
    pub fn status_input(&self, cols: u16) -> (r: Option<StatusInput>)
        requires
            self@.wf(),
        ensures
            match self@.prompt {
                Some(p) => r matches Some(i) && (i.prompt@, i.text@, i.cursor_col as int) == p.shown(
                    cols,
                ),
                None => r is None,
            },
    {
        match &self.prompt {
            Some(p) => Some(p.display(cols)),
            None => None,
        }
    }

    /// Handles a key event in the open prompt (see `Prompt::handle_key`): a
    /// release changes nothing; the prompt closes when the key closes or
    /// submits it. `Continue` without an open prompt.
    pub fn handle_key(&mut self, code: KeyCode, pressed: bool, text: Option<&str>) -> (r:
        PromptAction)
        requires
            old(self)@.wf(),
        ensures
            final(self)@.wf(),
            final(self)@.message == old(self)@.message,
            old(self)@.prompt is None || !pressed ==> r is Continue && final(self)@ == old(self)@,
            pressed && old(self)@.prompt is Some ==> match r {
                PromptAction::Continue => final(self)@.prompt == Some(
                    old(self)@.prompt->0.after_key(code, opt_chars(text)),
                ),
                PromptAction::Close => final(self)@.prompt is None && (code == KeyCode::Escape || (
                code == KeyCode::Enter && trimmed(old(self)@.prompt->0.buffer).len() == 0)),
                PromptAction::Submit(m, s) => final(self)@.prompt is None && code == KeyCode::Enter
                    && m == old(self)@.prompt->0.mode && s@ == trimmed(old(self)@.prompt->0.buffer)
                    && s@.len() > 0,
            },
    {
        if !pressed {
            return PromptAction::Continue;
        }
        let mut prompt = match self.prompt.take() {
            Some(p) => p,
            None => return PromptAction::Continue,
        };
        let r = prompt.handle_key(code, text);
        match r {
            PromptAction::Continue => {
                self.prompt = Some(prompt);
            },
            _ => {},
        }
        r
    }

    /// Reports, as of `now`, that the command `input` was not understood.
    pub fn command_unknown(&mut self, input: &str, now: u64)
        requires
            old(self)@.wf(),
        ensures
            final(self)@.wf(),
            final(self)@.prompt == old(self)@.prompt,
            final(self)@.message matches Some((t, m)) && t == now && m == seq![
                'u', 'n', 'k', 'n', 'o', 'w', 'n', ' ', 'c', 'o', 'm', 'm', 'a', 'n', 'd', ':', ' ',
            ] + match crate::keys::position_of(input@, ' ') {
                Some(i) => input@.take(i),
                None => input@,
            },
    {
        self.message = Some((now, unknown_command_message(input)));
    }
}

} // verus!
