use vstd::prelude::*;

use crate::text::{chars_of, push_str, string_of, trim_chars, trimmed};

verus! {

/// A physical key, by its position on a US keyboard. The keys that key
/// bindings can name have a variant of their own; every other key is
/// `Other`.
#[derive(Clone, Copy, Debug, PartialEq, Eq, Structural, Hash)]
pub enum KeyCode {
    KeyA,
    KeyB,
    KeyC,
    KeyD,
    KeyE,
    KeyF,
    KeyG,
    KeyH,
    KeyI,
    KeyJ,
    KeyK,
    KeyL,
    KeyM,
    KeyN,
    KeyO,
    KeyP,
    KeyQ,
    KeyR,
    KeyS,
    KeyT,
    KeyU,
    KeyV,
    KeyW,
    KeyX,
    KeyY,
    KeyZ,
    Digit0,
    Digit1,
    Digit2,
    Digit3,
    Digit4,
    Digit5,
    Digit6,
    Digit7,
    Digit8,
    Digit9,
    ArrowUp,
    ArrowDown,
    ArrowLeft,
    ArrowRight,
    F1,
    F2,
    F3,
    F4,
    F5,
    F6,
    F7,
    F8,
    F9,
    F10,
    F11,
    F12,
    Space,
    Enter,
    Escape,
    Tab,
    Backspace,
    Delete,
    Insert,
    Home,
    End,
    PageUp,
    PageDown,
    Semicolon,
    Comma,
    Period,
    Slash,
    Backslash,
    Minus,
    Equal,
    Quote,
    Backquote,
    BracketLeft,
    BracketRight,
    Other,
}

/// The modifier keys held down.
#[derive(Clone, Copy, Debug, PartialEq, Eq, Structural, Hash)]
pub struct Modifiers {
    pub shift: bool,
    pub control: bool,
    pub alt: bool,
    pub logo: bool,
}

impl Modifiers {
    /// No modifier held.
    pub open spec fn none() -> Modifiers {
        Modifiers { shift: false, control: false, alt: false, logo: false }
    }

    /// No modifier held.
    pub fn empty() -> (r: Modifiers)
        ensures
            r == Modifiers::none(),
    {
        Modifiers { shift: false, control: false, alt: false, logo: false }
    }

    /// Whether no modifier is held.
    pub fn is_empty(&self) -> (r: bool)
        ensures
            r == (*self == Modifiers::none()),
    {
        !self.shift && !self.control && !self.alt && !self.logo
    }

    /// The modifiers held in `self` or in `other`.
    pub open spec fn union(self, other: Modifiers) -> Modifiers {
        Modifiers {
            shift: self.shift || other.shift,
            control: self.control || other.control,
            alt: self.alt || other.alt,
            logo: self.logo || other.logo,
        }
    }

    /// Adds the modifiers of `other`.
    pub fn extend(&mut self, other: Modifiers)
        ensures
            *final(self) == old(self).union(other),
    {
        self.shift = self.shift || other.shift;
        self.control = self.control || other.control;
        self.alt = self.alt || other.alt;
        self.logo = self.logo || other.logo;
    }
}

/// A key together with the modifiers that must be held with it.
#[derive(Clone, Copy, Debug, PartialEq, Eq, Structural, Hash)]
pub struct KeyBinding {
    pub mods: Modifiers,
    pub key: KeyCode,
}

/// Why a key binding could not be read.
#[derive(Clone, Debug, PartialEq, Eq)]
pub enum KeyBindingError {
    /// A `<` that opens the modifiers has no matching `>`.
    UnclosedModifiers,
    /// A modifier name (given trimmed) that is none of `ctrl`, `alt`,
    /// `shift`, `mod`.
    InvalidModifier(String),
    /// A key name (given in lower case) that names no key.
    InvalidKey(String),
}

/// What went wrong reading a key binding, as a value.
pub enum BindingFault {
    UnclosedModifiers,
    InvalidModifier(Seq<char>),
    InvalidKey(Seq<char>),
}

impl View for KeyBindingError {
    type V = BindingFault;

    open spec fn view(&self) -> BindingFault {
        match self {
            KeyBindingError::UnclosedModifiers => BindingFault::UnclosedModifiers,
            KeyBindingError::InvalidModifier(s) => BindingFault::InvalidModifier(s@),
            KeyBindingError::InvalidKey(s) => BindingFault::InvalidKey(s@),
        }
    }
}

impl KeyBindingError {
    /// The error as a sentence.
    pub fn message(&self) -> (r: String)
        ensures
            r@ == match self@ {
                BindingFault::UnclosedModifiers => seq![
                    'f', 'a', 'i', 'l', 'e', 'd', ' ', 't', 'o', ' ', 'f', 'i', 'n', 'd', ' ', '`',
                    '>', '`', ' ', 'w', 'h', 'i', 'l', 'e', ' ', 'p', 'a', 'r', 's', 'i', 'n', 'g',
                    ' ', 'k', 'e', 'y', 'b', 'i', 'n', 'd', 'i', 'n', 'g', ' ', 'm', 'o', 'd', 'i',
                    'f', 'i', 'e', 'r', 's'],
                BindingFault::InvalidModifier(x) => seq!['`'] + x + seq![
                    '`', ' ', 'i', 's', ' ', 'n', 'o', 't', ' ', 'a', ' ', 'v', 'a', 'l', 'i', 'd',
                    ' ', 'm', 'o', 'd', 'i', 'f', 'i', 'e', 'r'],
                BindingFault::InvalidKey(x) => seq!['`'] + x + seq![
                    '`', ' ', 'i', 's', ' ', 'n', 'o', 't', ' ', 'a', ' ', 'v', 'a', 'l', 'i', 'd',
                    ' ', 'k', 'e', 'y'],
            },
    {
        let mut out: Vec<char> = Vec::new();
        match self {
            KeyBindingError::UnclosedModifiers => {
                push_chars(&mut out, &['f', 'a', 'i', 'l', 'e', 'd', ' ', 't', 'o', ' ', 'f', 'i', 'n', 'd', ' ', '`',
                    '>', '`', ' ', 'w', 'h', 'i', 'l', 'e', ' ', 'p', 'a', 'r', 's', 'i', 'n', 'g',
                    ' ', 'k', 'e', 'y', 'b', 'i', 'n', 'd', 'i', 'n', 'g', ' ', 'm', 'o', 'd', 'i',
                    'f', 'i', 'e', 'r', 's']);
            },
            KeyBindingError::InvalidModifier(x) => {
                out.push('`');
                push_str(&mut out, x.as_str());
                push_chars(&mut out, &['`', ' ', 'i', 's', ' ', 'n', 'o', 't', ' ', 'a', ' ', 'v', 'a', 'l', 'i', 'd',
                    ' ', 'm', 'o', 'd', 'i', 'f', 'i', 'e', 'r']);
            },
            KeyBindingError::InvalidKey(x) => {
                out.push('`');
                push_str(&mut out, x.as_str());
                push_chars(&mut out, &['`', ' ', 'i', 's', ' ', 'n', 'o', 't', ' ', 'a', ' ', 'v', 'a', 'l', 'i', 'd',
                    ' ', 'k', 'e', 'y']);
            },
        }
        assert(out@ =~= match self@ {
                BindingFault::UnclosedModifiers => seq![
                    'f', 'a', 'i', 'l', 'e', 'd', ' ', 't', 'o', ' ', 'f', 'i', 'n', 'd', ' ', '`',
                    '>', '`', ' ', 'w', 'h', 'i', 'l', 'e', ' ', 'p', 'a', 'r', 's', 'i', 'n', 'g',
                    ' ', 'k', 'e', 'y', 'b', 'i', 'n', 'd', 'i', 'n', 'g', ' ', 'm', 'o', 'd', 'i',
                    'f', 'i', 'e', 'r', 's'],
                BindingFault::InvalidModifier(x) => seq!['`'] + x + seq![
                    '`', ' ', 'i', 's', ' ', 'n', 'o', 't', ' ', 'a', ' ', 'v', 'a', 'l', 'i', 'd',
                    ' ', 'm', 'o', 'd', 'i', 'f', 'i', 'e', 'r'],
                BindingFault::InvalidKey(x) => seq!['`'] + x + seq![
                    '`', ' ', 'i', 's', ' ', 'n', 'o', 't', ' ', 'a', ' ', 'v', 'a', 'l', 'i', 'd',
                    ' ', 'k', 'e', 'y'],
            });
        string_of(&out)
    }
}

/// Appends the characters of `w` to `out`.
pub fn push_chars(out: &mut Vec<char>, w: &[char])
    ensures
        final(out)@ == old(out)@ + w@,
{
    let mut i: usize = 0;
    while i < w.len()
        invariant
            i <= w@.len(),
            out@ == old(out)@ + w@.take(i as int),
        decreases w.len() - i,
    {
        out.push(w[i]);
        i = i + 1;
        assert(out@ =~= old(out)@ + w@.take(i as int));
    }
    assert(w@.take(w@.len() as int) =~= w@);
}

/// Whether `v` holds exactly the one character `c`.
pub fn is_char(v: &Vec<char>, c: char) -> (r: bool)
    ensures
        r == (v@ == seq![c]),
{
    let r = v.len() == 1 && v[0] == c;
    proof {
        if r {
            assert(v@ =~= seq![c]);
        } else if v@.len() == 1 {
            assert(v@[0] != seq![c][0]);
        }
    }
    r
}

/// Whether `v` holds exactly the characters of `w`.
pub fn is_word(v: &Vec<char>, w: &[char]) -> (r: bool)
    ensures
        r == (v@ == w@),
{
    if v.len() != w.len() {
        return false;
    }
    let mut i: usize = 0;
    while i < v.len()
        invariant
            i <= v.len(),
            v.len() == w@.len(),
            forall|j: int| 0 <= j < i ==> v@[j] == w@[j],
        decreases v.len() - i,
    {
        if v[i] != w[i] {
            return false;
        }
        i = i + 1;
    }
    assert(v@ =~= w@);
    true
}

/// Part 1 of the table of key names.
pub open spec fn key_named_1(name: Seq<char>) -> Option<KeyCode> {
    if name == seq!['a'] {
        Some(KeyCode::KeyA)
    } else if name == seq!['b'] {
        Some(KeyCode::KeyB)
    } else if name == seq!['c'] {
        Some(KeyCode::KeyC)
    } else if name == seq!['d'] {
        Some(KeyCode::KeyD)
    } else if name == seq!['e'] {
        Some(KeyCode::KeyE)
    } else if name == seq!['f'] {
        Some(KeyCode::KeyF)
    } else if name == seq!['g'] {
        Some(KeyCode::KeyG)
    } else if name == seq!['h'] {
        Some(KeyCode::KeyH)
    } else if name == seq!['i'] {
        Some(KeyCode::KeyI)
    } else if name == seq!['j'] {
        Some(KeyCode::KeyJ)
    } else if name == seq!['k'] {
        Some(KeyCode::KeyK)
    } else if name == seq!['l'] {
        Some(KeyCode::KeyL)
    } else if name == seq!['m'] {
        Some(KeyCode::KeyM)
    } else if name == seq!['n'] {
        Some(KeyCode::KeyN)
    } else if name == seq!['o'] {
        Some(KeyCode::KeyO)
    } else if name == seq!['p'] {
        Some(KeyCode::KeyP)
    } else if name == seq!['q'] {
        Some(KeyCode::KeyQ)
    } else if name == seq!['r'] {
        Some(KeyCode::KeyR)
    } else if name == seq!['s'] {
        Some(KeyCode::KeyS)
    } else if name == seq!['t'] {
        Some(KeyCode::KeyT)
    } else {
        None
    }
}

/// Part 2 of the table of key names.
pub open spec fn key_named_2(name: Seq<char>) -> Option<KeyCode> {
    if name == seq!['u'] {
        Some(KeyCode::KeyU)
    } else if name == seq!['v'] {
        Some(KeyCode::KeyV)
    } else if name == seq!['w'] {
        Some(KeyCode::KeyW)
    } else if name == seq!['x'] {
        Some(KeyCode::KeyX)
    } else if name == seq!['y'] {
        Some(KeyCode::KeyY)
    } else if name == seq!['z'] {
        Some(KeyCode::KeyZ)
    } else if name == seq!['0'] {
        Some(KeyCode::Digit0)
    } else if name == seq!['1'] {
        Some(KeyCode::Digit1)
    } else if name == seq!['2'] {
        Some(KeyCode::Digit2)
    } else if name == seq!['3'] {
        Some(KeyCode::Digit3)
    } else if name == seq!['4'] {
        Some(KeyCode::Digit4)
    } else if name == seq!['5'] {
        Some(KeyCode::Digit5)
    } else if name == seq!['6'] {
        Some(KeyCode::Digit6)
    } else if name == seq!['7'] {
        Some(KeyCode::Digit7)
    } else if name == seq!['8'] {
        Some(KeyCode::Digit8)
    } else if name == seq!['9'] {
        Some(KeyCode::Digit9)
    } else if name == seq!['u', 'p'] {
        Some(KeyCode::ArrowUp)
    } else if name == seq!['a', 'r', 'r', 'o', 'w', 'u', 'p'] {
        Some(KeyCode::ArrowUp)
    } else if name == seq!['d', 'o', 'w', 'n'] {
        Some(KeyCode::ArrowDown)
    } else if name == seq!['a', 'r', 'r', 'o', 'w', 'd', 'o', 'w', 'n'] {
        Some(KeyCode::ArrowDown)
    } else {
        None
    }
}

/// Part 3 of the table of key names.
pub open spec fn key_named_3(name: Seq<char>) -> Option<KeyCode> {
    if name == seq!['l', 'e', 'f', 't'] {
        Some(KeyCode::ArrowLeft)
    } else if name == seq!['a', 'r', 'r', 'o', 'w', 'l', 'e', 'f', 't'] {
        Some(KeyCode::ArrowLeft)
    } else if name == seq!['r', 'i', 'g', 'h', 't'] {
        Some(KeyCode::ArrowRight)
    } else if name == seq!['a', 'r', 'r', 'o', 'w', 'r', 'i', 'g', 'h', 't'] {
        Some(KeyCode::ArrowRight)
    } else if name == seq!['f', '1'] {
        Some(KeyCode::F1)
    } else if name == seq!['f', '2'] {
        Some(KeyCode::F2)
    } else if name == seq!['f', '3'] {
        Some(KeyCode::F3)
    } else if name == seq!['f', '4'] {
        Some(KeyCode::F4)
    } else if name == seq!['f', '5'] {
        Some(KeyCode::F5)
    } else if name == seq!['f', '6'] {
        Some(KeyCode::F6)
    } else if name == seq!['f', '7'] {
        Some(KeyCode::F7)
    } else if name == seq!['f', '8'] {
        Some(KeyCode::F8)
    } else if name == seq!['f', '9'] {
        Some(KeyCode::F9)
    } else if name == seq!['f', '1', '0'] {
        Some(KeyCode::F10)
    } else if name == seq!['f', '1', '1'] {
        Some(KeyCode::F11)
    } else if name == seq!['f', '1', '2'] {
        Some(KeyCode::F12)
    } else if name == seq!['s', 'p', 'a', 'c', 'e'] {
        Some(KeyCode::Space)
    } else if name == seq!['e', 'n', 't', 'e', 'r'] {
        Some(KeyCode::Enter)
    } else if name == seq!['r', 'e', 't', 'u', 'r', 'n'] {
        Some(KeyCode::Enter)
    } else if name == seq!['e', 's', 'c'] {
        Some(KeyCode::Escape)
    } else {
        None
    }
}

/// Part 4 of the table of key names.
pub open spec fn key_named_4(name: Seq<char>) -> Option<KeyCode> {
    if name == seq!['e', 's', 'c', 'a', 'p', 'e'] {
        Some(KeyCode::Escape)
    } else if name == seq!['t', 'a', 'b'] {
        Some(KeyCode::Tab)
    } else if name == seq!['b', 'a', 'c', 'k', 's', 'p', 'a', 'c', 'e'] {
        Some(KeyCode::Backspace)
    } else if name == seq!['d', 'e', 'l', 'e', 't', 'e'] {
        Some(KeyCode::Delete)
    } else if name == seq!['d', 'e', 'l'] {
        Some(KeyCode::Delete)
    } else if name == seq!['i', 'n', 's', 'e', 'r', 't'] {
        Some(KeyCode::Insert)
    } else if name == seq!['i', 'n', 's'] {
        Some(KeyCode::Insert)
    } else if name == seq!['h', 'o', 'm', 'e'] {
        Some(KeyCode::Home)
    } else if name == seq!['e', 'n', 'd'] {
        Some(KeyCode::End)
    } else if name == seq!['p', 'a', 'g', 'e', 'u', 'p'] {
        Some(KeyCode::PageUp)
    } else if name == seq!['p', 'a', 'g', 'e', 'd', 'o', 'w', 'n'] {
        Some(KeyCode::PageDown)
    } else if name == seq!['s', 'e', 'm', 'i', 'c', 'o', 'l', 'o', 'n'] {
        Some(KeyCode::Semicolon)
    } else if name == seq!['c', 'o', 'm', 'm', 'a'] {
        Some(KeyCode::Comma)
    } else if name == seq!['p', 'e', 'r', 'i', 'o', 'd'] {
        Some(KeyCode::Period)
    } else if name == seq!['d', 'o', 't'] {
        Some(KeyCode::Period)
    } else if name == seq!['s', 'l', 'a', 's', 'h'] {
        Some(KeyCode::Slash)
    } else if name == seq!['b', 'a', 'c', 'k', 's', 'l', 'a', 's', 'h'] {
        Some(KeyCode::Backslash)
    } else if name == seq!['m', 'i', 'n', 'u', 's'] {
        Some(KeyCode::Minus)
    } else if name == seq!['e', 'q', 'u', 'a', 'l', 's'] {
        Some(KeyCode::Equal)
    } else if name == seq!['e', 'q', 'u', 'a', 'l'] {
        Some(KeyCode::Equal)
    } else {
        None
    }
}

/// Part 5 of the table of key names.
pub open spec fn key_named_5(name: Seq<char>) -> Option<KeyCode> {
    if name == seq!['q', 'u', 'o', 't', 'e'] {
        Some(KeyCode::Quote)
    } else if name == seq!['a', 'p', 'o', 's', 't', 'r', 'o', 'p', 'h', 'e'] {
        Some(KeyCode::Quote)
    } else if name == seq!['b', 'a', 'c', 'k', 'q', 'u', 'o', 't', 'e'] {
        Some(KeyCode::Backquote)
    } else if name == seq!['g', 'r', 'a', 'v', 'e'] {
        Some(KeyCode::Backquote)
    } else if name == seq!['b', 'r', 'a', 'c', 'k', 'e', 't', 'l', 'e', 'f', 't'] {
        Some(KeyCode::BracketLeft)
    } else if name == seq!['['] {
        Some(KeyCode::BracketLeft)
    } else if name == seq!['b', 'r', 'a', 'c', 'k', 'e', 't', 'r', 'i', 'g', 'h', 't'] {
        Some(KeyCode::BracketRight)
    } else if name == seq![']'] {
        Some(KeyCode::BracketRight)
    } else {
        None
    }
}

/// The key that a (lower-case) name stands for in a key binding.
#[verifier::opaque]
pub open spec fn key_named(name: Seq<char>) -> Option<KeyCode> {
    match key_named_1(name) {
        Some(k) => Some(k),
        None => match key_named_2(name) {
        Some(k) => Some(k),
        None => match key_named_3(name) {
        Some(k) => Some(k),
        None => match key_named_4(name) {
        Some(k) => Some(k),
        None => key_named_5(name),
    },
    },
    },
    }
}

/// Part 1 of the table of key names.
fn key_from_name_1(name: &Vec<char>) -> (r: Option<KeyCode>)
    ensures
        r == key_named_1(name@),
{
    if is_char(name, 'a') {
        Some(KeyCode::KeyA)
    } else if is_char(name, 'b') {
        Some(KeyCode::KeyB)
    } else if is_char(name, 'c') {
        Some(KeyCode::KeyC)
    } else if is_char(name, 'd') {
        Some(KeyCode::KeyD)
    } else if is_char(name, 'e') {
        Some(KeyCode::KeyE)
    } else if is_char(name, 'f') {
        Some(KeyCode::KeyF)
    } else if is_char(name, 'g') {
        Some(KeyCode::KeyG)
    } else if is_char(name, 'h') {
        Some(KeyCode::KeyH)
    } else if is_char(name, 'i') {
        Some(KeyCode::KeyI)
    } else if is_char(name, 'j') {
        Some(KeyCode::KeyJ)
    } else if is_char(name, 'k') {
        Some(KeyCode::KeyK)
    } else if is_char(name, 'l') {
        Some(KeyCode::KeyL)
    } else if is_char(name, 'm') {
        Some(KeyCode::KeyM)
    } else if is_char(name, 'n') {
        Some(KeyCode::KeyN)
    } else if is_char(name, 'o') {
        Some(KeyCode::KeyO)
    } else if is_char(name, 'p') {
        Some(KeyCode::KeyP)
    } else if is_char(name, 'q') {
        Some(KeyCode::KeyQ)
    } else if is_char(name, 'r') {
        Some(KeyCode::KeyR)
    } else if is_char(name, 's') {
        Some(KeyCode::KeyS)
    } else if is_char(name, 't') {
        Some(KeyCode::KeyT)
    } else {
        None
    }
}

/// Part 2 of the table of key names.
fn key_from_name_2(name: &Vec<char>) -> (r: Option<KeyCode>)
    ensures
        r == key_named_2(name@),
{
    if is_char(name, 'u') {
        Some(KeyCode::KeyU)
    } else if is_char(name, 'v') {
        Some(KeyCode::KeyV)
    } else if is_char(name, 'w') {
        Some(KeyCode::KeyW)
    } else if is_char(name, 'x') {
        Some(KeyCode::KeyX)
    } else if is_char(name, 'y') {
        Some(KeyCode::KeyY)
    } else if is_char(name, 'z') {
        Some(KeyCode::KeyZ)
    } else if is_char(name, '0') {
        Some(KeyCode::Digit0)
    } else if is_char(name, '1') {
        Some(KeyCode::Digit1)
    } else if is_char(name, '2') {
        Some(KeyCode::Digit2)
    } else if is_char(name, '3') {
        Some(KeyCode::Digit3)
    } else if is_char(name, '4') {
        Some(KeyCode::Digit4)
    } else if is_char(name, '5') {
        Some(KeyCode::Digit5)
    } else if is_char(name, '6') {
        Some(KeyCode::Digit6)
    } else if is_char(name, '7') {
        Some(KeyCode::Digit7)
    } else if is_char(name, '8') {
        Some(KeyCode::Digit8)
    } else if is_char(name, '9') {
        Some(KeyCode::Digit9)
    } else if is_word(name, &['u', 'p']) {
        Some(KeyCode::ArrowUp)
    } else if is_word(name, &['a', 'r', 'r', 'o', 'w', 'u', 'p']) {
        Some(KeyCode::ArrowUp)
    } else if is_word(name, &['d', 'o', 'w', 'n']) {
        Some(KeyCode::ArrowDown)
    } else if is_word(name, &['a', 'r', 'r', 'o', 'w', 'd', 'o', 'w', 'n']) {
        Some(KeyCode::ArrowDown)
    } else {
        None
    }
}

/// Part 3 of the table of key names.
fn key_from_name_3(name: &Vec<char>) -> (r: Option<KeyCode>)
    ensures
        r == key_named_3(name@),
{
    if is_word(name, &['l', 'e', 'f', 't']) {
        Some(KeyCode::ArrowLeft)
    } else if is_word(name, &['a', 'r', 'r', 'o', 'w', 'l', 'e', 'f', 't']) {
        Some(KeyCode::ArrowLeft)
    } else if is_word(name, &['r', 'i', 'g', 'h', 't']) {
        Some(KeyCode::ArrowRight)
    } else if is_word(name, &['a', 'r', 'r', 'o', 'w', 'r', 'i', 'g', 'h', 't']) {
        Some(KeyCode::ArrowRight)
    } else if is_word(name, &['f', '1']) {
        Some(KeyCode::F1)
    } else if is_word(name, &['f', '2']) {
        Some(KeyCode::F2)
    } else if is_word(name, &['f', '3']) {
        Some(KeyCode::F3)
    } else if is_word(name, &['f', '4']) {
        Some(KeyCode::F4)
    } else if is_word(name, &['f', '5']) {
        Some(KeyCode::F5)
    } else if is_word(name, &['f', '6']) {
        Some(KeyCode::F6)
    } else if is_word(name, &['f', '7']) {
        Some(KeyCode::F7)
    } else if is_word(name, &['f', '8']) {
        Some(KeyCode::F8)
    } else if is_word(name, &['f', '9']) {
        Some(KeyCode::F9)
    } else if is_word(name, &['f', '1', '0']) {
        Some(KeyCode::F10)
    } else if is_word(name, &['f', '1', '1']) {
        Some(KeyCode::F11)
    } else if is_word(name, &['f', '1', '2']) {
        Some(KeyCode::F12)
    } else if is_word(name, &['s', 'p', 'a', 'c', 'e']) {
        Some(KeyCode::Space)
    } else if is_word(name, &['e', 'n', 't', 'e', 'r']) {
        Some(KeyCode::Enter)
    } else if is_word(name, &['r', 'e', 't', 'u', 'r', 'n']) {
        Some(KeyCode::Enter)
    } else if is_word(name, &['e', 's', 'c']) {
        Some(KeyCode::Escape)
    } else {
        None
    }
}

/// Part 4 of the table of key names.
fn key_from_name_4(name: &Vec<char>) -> (r: Option<KeyCode>)
    ensures
        r == key_named_4(name@),
{
    if is_word(name, &['e', 's', 'c', 'a', 'p', 'e']) {
        Some(KeyCode::Escape)
    } else if is_word(name, &['t', 'a', 'b']) {
        Some(KeyCode::Tab)
    } else if is_word(name, &['b', 'a', 'c', 'k', 's', 'p', 'a', 'c', 'e']) {
        Some(KeyCode::Backspace)
    } else if is_word(name, &['d', 'e', 'l', 'e', 't', 'e']) {
        Some(KeyCode::Delete)
    } else if is_word(name, &['d', 'e', 'l']) {
        Some(KeyCode::Delete)
    } else if is_word(name, &['i', 'n', 's', 'e', 'r', 't']) {
        Some(KeyCode::Insert)
    } else if is_word(name, &['i', 'n', 's']) {
        Some(KeyCode::Insert)
    } else if is_word(name, &['h', 'o', 'm', 'e']) {
        Some(KeyCode::Home)
    } else if is_word(name, &['e', 'n', 'd']) {
        Some(KeyCode::End)
    } else if is_word(name, &['p', 'a', 'g', 'e', 'u', 'p']) {
        Some(KeyCode::PageUp)
    } else if is_word(name, &['p', 'a', 'g', 'e', 'd', 'o', 'w', 'n']) {
        Some(KeyCode::PageDown)
    } else if is_word(name, &['s', 'e', 'm', 'i', 'c', 'o', 'l', 'o', 'n']) {
        Some(KeyCode::Semicolon)
    } else if is_word(name, &['c', 'o', 'm', 'm', 'a']) {
        Some(KeyCode::Comma)
    } else if is_word(name, &['p', 'e', 'r', 'i', 'o', 'd']) {
        Some(KeyCode::Period)
    } else if is_word(name, &['d', 'o', 't']) {
        Some(KeyCode::Period)
    } else if is_word(name, &['s', 'l', 'a', 's', 'h']) {
        Some(KeyCode::Slash)
    } else if is_word(name, &['b', 'a', 'c', 'k', 's', 'l', 'a', 's', 'h']) {
        Some(KeyCode::Backslash)
    } else if is_word(name, &['m', 'i', 'n', 'u', 's']) {
        Some(KeyCode::Minus)
    } else if is_word(name, &['e', 'q', 'u', 'a', 'l', 's']) {
        Some(KeyCode::Equal)
    } else if is_word(name, &['e', 'q', 'u', 'a', 'l']) {
        Some(KeyCode::Equal)
    } else {
        None
    }
}

/// Part 5 of the table of key names.
fn key_from_name_5(name: &Vec<char>) -> (r: Option<KeyCode>)
    ensures
        r == key_named_5(name@),
{
    if is_word(name, &['q', 'u', 'o', 't', 'e']) {
        Some(KeyCode::Quote)
    } else if is_word(name, &['a', 'p', 'o', 's', 't', 'r', 'o', 'p', 'h', 'e']) {
        Some(KeyCode::Quote)
    } else if is_word(name, &['b', 'a', 'c', 'k', 'q', 'u', 'o', 't', 'e']) {
        Some(KeyCode::Backquote)
    } else if is_word(name, &['g', 'r', 'a', 'v', 'e']) {
        Some(KeyCode::Backquote)
    } else if is_word(name, &['b', 'r', 'a', 'c', 'k', 'e', 't', 'l', 'e', 'f', 't']) {
        Some(KeyCode::BracketLeft)
    } else if is_char(name, '[') {
        Some(KeyCode::BracketLeft)
    } else if is_word(name, &['b', 'r', 'a', 'c', 'k', 'e', 't', 'r', 'i', 'g', 'h', 't']) {
        Some(KeyCode::BracketRight)
    } else if is_char(name, ']') {
        Some(KeyCode::BracketRight)
    } else {
        None
    }
}

/// The key that a lower-case name stands for in a key binding: a letter or
/// digit, an arrow (`up` or `arrowup`, ...), `f1` to `f12`, or one of the
/// named keys (`space`, `enter`/`return`, `esc`/`escape`, `tab`, ...).
pub fn key_from_name(name: &Vec<char>) -> (r: Option<KeyCode>)
    ensures
        r == key_named(name@),
{
    reveal(key_named);
    if let Some(k) = key_from_name_1(name) {
        return Some(k);
    }
    if let Some(k) = key_from_name_2(name) {
        return Some(k);
    }
    if let Some(k) = key_from_name_3(name) {
        return Some(k);
    }
    if let Some(k) = key_from_name_4(name) {
        return Some(k);
    }
    key_from_name_5(name)
}

/// The names that the binding reader accepts for each key (after lower
/// casing), listed key by key.
pub open spec fn names_of_key(k: KeyCode) -> Seq<Seq<char>> {
    match k {
        KeyCode::KeyA => seq![seq!['a']],
        KeyCode::KeyB => seq![seq!['b']],
        KeyCode::KeyC => seq![seq!['c']],
        KeyCode::KeyD => seq![seq!['d']],
        KeyCode::KeyE => seq![seq!['e']],
        KeyCode::KeyF => seq![seq!['f']],
        KeyCode::KeyG => seq![seq!['g']],
        KeyCode::KeyH => seq![seq!['h']],
        KeyCode::KeyI => seq![seq!['i']],
        KeyCode::KeyJ => seq![seq!['j']],
        KeyCode::KeyK => seq![seq!['k']],
        KeyCode::KeyL => seq![seq!['l']],
        KeyCode::KeyM => seq![seq!['m']],
        KeyCode::KeyN => seq![seq!['n']],
        KeyCode::KeyO => seq![seq!['o']],
        KeyCode::KeyP => seq![seq!['p']],
        KeyCode::KeyQ => seq![seq!['q']],
        KeyCode::KeyR => seq![seq!['r']],
        KeyCode::KeyS => seq![seq!['s']],
        KeyCode::KeyT => seq![seq!['t']],
        KeyCode::KeyU => seq![seq!['u']],
        KeyCode::KeyV => seq![seq!['v']],
        KeyCode::KeyW => seq![seq!['w']],
        KeyCode::KeyX => seq![seq!['x']],
        KeyCode::KeyY => seq![seq!['y']],
        KeyCode::KeyZ => seq![seq!['z']],
        KeyCode::Digit0 => seq![seq!['0']],
        KeyCode::Digit1 => seq![seq!['1']],
        KeyCode::Digit2 => seq![seq!['2']],
        KeyCode::Digit3 => seq![seq!['3']],
        KeyCode::Digit4 => seq![seq!['4']],
        KeyCode::Digit5 => seq![seq!['5']],
        KeyCode::Digit6 => seq![seq!['6']],
        KeyCode::Digit7 => seq![seq!['7']],
        KeyCode::Digit8 => seq![seq!['8']],
        KeyCode::Digit9 => seq![seq!['9']],
        KeyCode::ArrowUp => seq![seq!['u', 'p'], seq!['a', 'r', 'r', 'o', 'w', 'u', 'p']],
        KeyCode::ArrowDown => seq![seq!['d', 'o', 'w', 'n'], seq!['a', 'r', 'r', 'o', 'w', 'd', 'o', 'w', 'n']],
        KeyCode::ArrowLeft => seq![seq!['l', 'e', 'f', 't'], seq!['a', 'r', 'r', 'o', 'w', 'l', 'e', 'f', 't']],
        KeyCode::ArrowRight => seq![seq!['r', 'i', 'g', 'h', 't'], seq!['a', 'r', 'r', 'o', 'w', 'r', 'i', 'g', 'h', 't']],
        KeyCode::F1 => seq![seq!['f', '1']],
        KeyCode::F2 => seq![seq!['f', '2']],
        KeyCode::F3 => seq![seq!['f', '3']],
        KeyCode::F4 => seq![seq!['f', '4']],
        KeyCode::F5 => seq![seq!['f', '5']],
        KeyCode::F6 => seq![seq!['f', '6']],
        KeyCode::F7 => seq![seq!['f', '7']],
        KeyCode::F8 => seq![seq!['f', '8']],
        KeyCode::F9 => seq![seq!['f', '9']],
        KeyCode::F10 => seq![seq!['f', '1', '0']],
        KeyCode::F11 => seq![seq!['f', '1', '1']],
        KeyCode::F12 => seq![seq!['f', '1', '2']],
        KeyCode::Space => seq![seq!['s', 'p', 'a', 'c', 'e']],
        KeyCode::Enter => seq![seq!['e', 'n', 't', 'e', 'r'], seq!['r', 'e', 't', 'u', 'r', 'n']],
        KeyCode::Escape => seq![seq!['e', 's', 'c'], seq!['e', 's', 'c', 'a', 'p', 'e']],
        KeyCode::Tab => seq![seq!['t', 'a', 'b']],
        KeyCode::Backspace => seq![seq!['b', 'a', 'c', 'k', 's', 'p', 'a', 'c', 'e']],
        KeyCode::Delete => seq![seq!['d', 'e', 'l', 'e', 't', 'e'], seq!['d', 'e', 'l']],
        KeyCode::Insert => seq![seq!['i', 'n', 's', 'e', 'r', 't'], seq!['i', 'n', 's']],
        KeyCode::Home => seq![seq!['h', 'o', 'm', 'e']],
        KeyCode::End => seq![seq!['e', 'n', 'd']],
        KeyCode::PageUp => seq![seq!['p', 'a', 'g', 'e', 'u', 'p']],
        KeyCode::PageDown => seq![seq!['p', 'a', 'g', 'e', 'd', 'o', 'w', 'n']],
        KeyCode::Semicolon => seq![seq!['s', 'e', 'm', 'i', 'c', 'o', 'l', 'o', 'n']],
        KeyCode::Comma => seq![seq!['c', 'o', 'm', 'm', 'a']],
        KeyCode::Period => seq![seq!['p', 'e', 'r', 'i', 'o', 'd'], seq!['d', 'o', 't']],
        KeyCode::Slash => seq![seq!['s', 'l', 'a', 's', 'h']],
        KeyCode::Backslash => seq![seq!['b', 'a', 'c', 'k', 's', 'l', 'a', 's', 'h']],
        KeyCode::Minus => seq![seq!['m', 'i', 'n', 'u', 's']],
        KeyCode::Equal => seq![seq!['e', 'q', 'u', 'a', 'l', 's'], seq!['e', 'q', 'u', 'a', 'l']],
        KeyCode::Quote => seq![seq!['q', 'u', 'o', 't', 'e'], seq!['a', 'p', 'o', 's', 't', 'r', 'o', 'p', 'h', 'e']],
        KeyCode::Backquote => seq![seq!['b', 'a', 'c', 'k', 'q', 'u', 'o', 't', 'e'], seq!['g', 'r', 'a', 'v', 'e']],
        KeyCode::BracketLeft => seq![seq!['b', 'r', 'a', 'c', 'k', 'e', 't', 'l', 'e', 'f', 't'], seq!['[']],
        KeyCode::BracketRight => seq![seq!['b', 'r', 'a', 'c', 'k', 'e', 't', 'r', 'i', 'g', 'h', 't'], seq![']']],
        KeyCode::Other => Seq::empty(),
    }
}

/// Whether every name of `names` reads as the key `k`.
pub open spec fn all_read_as(names: Seq<Seq<char>>, k: KeyCode) -> bool
    decreases names.len(),
{
    names.len() == 0 || (key_named(names[0]) == Some(k) && all_read_as(names.drop_first(), k))
}

proof fn lemma_all_read_as(names: Seq<Seq<char>>, k: KeyCode)
    requires
        all_read_as(names, k),
    ensures
        forall|i: int| 0 <= i < names.len() ==> key_named(#[trigger] names[i]) == Some(k),
    decreases names.len(),
{
    if names.len() > 0 {
        lemma_all_read_as(names.drop_first(), k);
        assert forall|i: int| 0 <= i < names.len() implies key_named(#[trigger] names[i]) == Some(k) by {
            if i > 0 {
                assert(names[i] == names.drop_first()[i - 1]);
            }
        }
    }
}

/// Names of the table read as their keys (part 1 of 8).
proof fn lemma_key_names_part_1()
    ensures
        key_named(seq!['a']) == Some(KeyCode::KeyA),
        key_named(seq!['b']) == Some(KeyCode::KeyB),
        key_named(seq!['c']) == Some(KeyCode::KeyC),
        key_named(seq!['d']) == Some(KeyCode::KeyD),
        key_named(seq!['e']) == Some(KeyCode::KeyE),
        key_named(seq!['f']) == Some(KeyCode::KeyF),
        key_named(seq!['g']) == Some(KeyCode::KeyG),
        key_named(seq!['h']) == Some(KeyCode::KeyH),
        key_named(seq!['i']) == Some(KeyCode::KeyI),
        key_named(seq!['j']) == Some(KeyCode::KeyJ),
        key_named(seq!['k']) == Some(KeyCode::KeyK),
{
    reveal(key_named);
    assert(seq!['a'].len() == 1 && seq!['a'][0] == 'a');
    assert(seq!['b'].len() == 1 && seq!['b'][0] == 'b');
    assert(seq!['c'].len() == 1 && seq!['c'][0] == 'c');
    assert(seq!['d'].len() == 1 && seq!['d'][0] == 'd');
    assert(seq!['e'].len() == 1 && seq!['e'][0] == 'e');
    assert(seq!['f'].len() == 1 && seq!['f'][0] == 'f');
    assert(seq!['g'].len() == 1 && seq!['g'][0] == 'g');
    assert(seq!['h'].len() == 1 && seq!['h'][0] == 'h');
    assert(seq!['i'].len() == 1 && seq!['i'][0] == 'i');
    assert(seq!['j'].len() == 1 && seq!['j'][0] == 'j');
    assert(seq!['k'].len() == 1 && seq!['k'][0] == 'k');
}

/// Names of the table read as their keys (part 2 of 8).
proof fn lemma_key_names_part_2()
    ensures
        key_named(seq!['l']) == Some(KeyCode::KeyL),
        key_named(seq!['m']) == Some(KeyCode::KeyM),
        key_named(seq!['n']) == Some(KeyCode::KeyN),
        key_named(seq!['o']) == Some(KeyCode::KeyO),
        key_named(seq!['p']) == Some(KeyCode::KeyP),
        key_named(seq!['q']) == Some(KeyCode::KeyQ),
        key_named(seq!['r']) == Some(KeyCode::KeyR),
        key_named(seq!['s']) == Some(KeyCode::KeyS),
        key_named(seq!['t']) == Some(KeyCode::KeyT),
        key_named(seq!['u']) == Some(KeyCode::KeyU),
        key_named(seq!['v']) == Some(KeyCode::KeyV),
{
    reveal(key_named);
    assert(seq!['l'].len() == 1 && seq!['l'][0] == 'l');
    assert(seq!['m'].len() == 1 && seq!['m'][0] == 'm');
    assert(seq!['n'].len() == 1 && seq!['n'][0] == 'n');
    assert(seq!['o'].len() == 1 && seq!['o'][0] == 'o');
    assert(seq!['p'].len() == 1 && seq!['p'][0] == 'p');
    assert(seq!['q'].len() == 1 && seq!['q'][0] == 'q');
    assert(seq!['r'].len() == 1 && seq!['r'][0] == 'r');
    assert(seq!['s'].len() == 1 && seq!['s'][0] == 's');
    assert(seq!['t'].len() == 1 && seq!['t'][0] == 't');
    assert(seq!['u'].len() == 1 && seq!['u'][0] == 'u');
    assert(seq!['v'].len() == 1 && seq!['v'][0] == 'v');
}

/// Names of the table read as their keys (part 3 of 8).
proof fn lemma_key_names_part_3()
    ensures
        key_named(seq!['w']) == Some(KeyCode::KeyW),
        key_named(seq!['x']) == Some(KeyCode::KeyX),
        key_named(seq!['y']) == Some(KeyCode::KeyY),
        key_named(seq!['z']) == Some(KeyCode::KeyZ),
        key_named(seq!['0']) == Some(KeyCode::Digit0),
        key_named(seq!['1']) == Some(KeyCode::Digit1),
        key_named(seq!['2']) == Some(KeyCode::Digit2),
        key_named(seq!['3']) == Some(KeyCode::Digit3),
        key_named(seq!['4']) == Some(KeyCode::Digit4),
        key_named(seq!['5']) == Some(KeyCode::Digit5),
        key_named(seq!['6']) == Some(KeyCode::Digit6),
{
    reveal(key_named);
    assert(seq!['w'].len() == 1 && seq!['w'][0] == 'w');
    assert(seq!['x'].len() == 1 && seq!['x'][0] == 'x');
    assert(seq!['y'].len() == 1 && seq!['y'][0] == 'y');
    assert(seq!['z'].len() == 1 && seq!['z'][0] == 'z');
    assert(seq!['0'].len() == 1 && seq!['0'][0] == '0');
    assert(seq!['1'].len() == 1 && seq!['1'][0] == '1');
    assert(seq!['2'].len() == 1 && seq!['2'][0] == '2');
    assert(seq!['3'].len() == 1 && seq!['3'][0] == '3');
    assert(seq!['4'].len() == 1 && seq!['4'][0] == '4');
    assert(seq!['5'].len() == 1 && seq!['5'][0] == '5');
    assert(seq!['6'].len() == 1 && seq!['6'][0] == '6');
}

/// Names of the table read as their keys (part 4 of 8).
proof fn lemma_key_names_part_4()
    ensures
        key_named(seq!['7']) == Some(KeyCode::Digit7),
        key_named(seq!['8']) == Some(KeyCode::Digit8),
        key_named(seq!['9']) == Some(KeyCode::Digit9),
        key_named(seq!['u', 'p']) == Some(KeyCode::ArrowUp),
        key_named(seq!['a', 'r', 'r', 'o', 'w', 'u', 'p']) == Some(KeyCode::ArrowUp),
        key_named(seq!['d', 'o', 'w', 'n']) == Some(KeyCode::ArrowDown),
        key_named(seq!['a', 'r', 'r', 'o', 'w', 'd', 'o', 'w', 'n']) == Some(KeyCode::ArrowDown),
        key_named(seq!['l', 'e', 'f', 't']) == Some(KeyCode::ArrowLeft),
        key_named(seq!['a', 'r', 'r', 'o', 'w', 'l', 'e', 'f', 't']) == Some(KeyCode::ArrowLeft),
        key_named(seq!['r', 'i', 'g', 'h', 't']) == Some(KeyCode::ArrowRight),
        key_named(seq!['a', 'r', 'r', 'o', 'w', 'r', 'i', 'g', 'h', 't']) == Some(KeyCode::ArrowRight),
{
    reveal(key_named);
    assert(seq!['7'].len() == 1 && seq!['7'][0] == '7');
    assert(seq!['8'].len() == 1 && seq!['8'][0] == '8');
    assert(seq!['9'].len() == 1 && seq!['9'][0] == '9');
    assert(seq!['u', 'p'].len() == 2 && seq!['u', 'p'][0] == 'u' && seq!['u', 'p'][1] == 'p');
    assert(seq!['a', 'r', 'r', 'o', 'w', 'u', 'p'].len() == 7 && seq!['a', 'r', 'r', 'o', 'w', 'u', 'p'][0] == 'a' && seq!['a', 'r', 'r', 'o', 'w', 'u', 'p'][1] == 'r' && seq!['a', 'r', 'r', 'o', 'w', 'u', 'p'][2] == 'r' && seq!['a', 'r', 'r', 'o', 'w', 'u', 'p'][3] == 'o' && seq!['a', 'r', 'r', 'o', 'w', 'u', 'p'][4] == 'w' && seq!['a', 'r', 'r', 'o', 'w', 'u', 'p'][5] == 'u' && seq!['a', 'r', 'r', 'o', 'w', 'u', 'p'][6] == 'p');
    assert(seq!['d', 'o', 'w', 'n'].len() == 4 && seq!['d', 'o', 'w', 'n'][0] == 'd' && seq!['d', 'o', 'w', 'n'][1] == 'o' && seq!['d', 'o', 'w', 'n'][2] == 'w' && seq!['d', 'o', 'w', 'n'][3] == 'n');
    assert(seq!['a', 'r', 'r', 'o', 'w', 'd', 'o', 'w', 'n'].len() == 9 && seq!['a', 'r', 'r', 'o', 'w', 'd', 'o', 'w', 'n'][0] == 'a' && seq!['a', 'r', 'r', 'o', 'w', 'd', 'o', 'w', 'n'][1] == 'r' && seq!['a', 'r', 'r', 'o', 'w', 'd', 'o', 'w', 'n'][2] == 'r' && seq!['a', 'r', 'r', 'o', 'w', 'd', 'o', 'w', 'n'][3] == 'o' && seq!['a', 'r', 'r', 'o', 'w', 'd', 'o', 'w', 'n'][4] == 'w' && seq!['a', 'r', 'r', 'o', 'w', 'd', 'o', 'w', 'n'][5] == 'd' && seq!['a', 'r', 'r', 'o', 'w', 'd', 'o', 'w', 'n'][6] == 'o' && seq!['a', 'r', 'r', 'o', 'w', 'd', 'o', 'w', 'n'][7] == 'w' && seq!['a', 'r', 'r', 'o', 'w', 'd', 'o', 'w', 'n'][8] == 'n');
    assert(seq!['l', 'e', 'f', 't'].len() == 4 && seq!['l', 'e', 'f', 't'][0] == 'l' && seq!['l', 'e', 'f', 't'][1] == 'e' && seq!['l', 'e', 'f', 't'][2] == 'f' && seq!['l', 'e', 'f', 't'][3] == 't');
    assert(seq!['a', 'r', 'r', 'o', 'w', 'l', 'e', 'f', 't'].len() == 9 && seq!['a', 'r', 'r', 'o', 'w', 'l', 'e', 'f', 't'][0] == 'a' && seq!['a', 'r', 'r', 'o', 'w', 'l', 'e', 'f', 't'][1] == 'r' && seq!['a', 'r', 'r', 'o', 'w', 'l', 'e', 'f', 't'][2] == 'r' && seq!['a', 'r', 'r', 'o', 'w', 'l', 'e', 'f', 't'][3] == 'o' && seq!['a', 'r', 'r', 'o', 'w', 'l', 'e', 'f', 't'][4] == 'w' && seq!['a', 'r', 'r', 'o', 'w', 'l', 'e', 'f', 't'][5] == 'l' && seq!['a', 'r', 'r', 'o', 'w', 'l', 'e', 'f', 't'][6] == 'e' && seq!['a', 'r', 'r', 'o', 'w', 'l', 'e', 'f', 't'][7] == 'f' && seq!['a', 'r', 'r', 'o', 'w', 'l', 'e', 'f', 't'][8] == 't');
    assert(seq!['r', 'i', 'g', 'h', 't'].len() == 5 && seq!['r', 'i', 'g', 'h', 't'][0] == 'r' && seq!['r', 'i', 'g', 'h', 't'][1] == 'i' && seq!['r', 'i', 'g', 'h', 't'][2] == 'g' && seq!['r', 'i', 'g', 'h', 't'][3] == 'h' && seq!['r', 'i', 'g', 'h', 't'][4] == 't');
    assert(seq!['a', 'r', 'r', 'o', 'w', 'r', 'i', 'g', 'h', 't'].len() == 10 && seq!['a', 'r', 'r', 'o', 'w', 'r', 'i', 'g', 'h', 't'][0] == 'a' && seq!['a', 'r', 'r', 'o', 'w', 'r', 'i', 'g', 'h', 't'][1] == 'r' && seq!['a', 'r', 'r', 'o', 'w', 'r', 'i', 'g', 'h', 't'][2] == 'r' && seq!['a', 'r', 'r', 'o', 'w', 'r', 'i', 'g', 'h', 't'][3] == 'o' && seq!['a', 'r', 'r', 'o', 'w', 'r', 'i', 'g', 'h', 't'][4] == 'w' && seq!['a', 'r', 'r', 'o', 'w', 'r', 'i', 'g', 'h', 't'][5] == 'r' && seq!['a', 'r', 'r', 'o', 'w', 'r', 'i', 'g', 'h', 't'][6] == 'i' && seq!['a', 'r', 'r', 'o', 'w', 'r', 'i', 'g', 'h', 't'][7] == 'g' && seq!['a', 'r', 'r', 'o', 'w', 'r', 'i', 'g', 'h', 't'][8] == 'h' && seq!['a', 'r', 'r', 'o', 'w', 'r', 'i', 'g', 'h', 't'][9] == 't');
}

/// Names of the table read as their keys (part 5 of 8).
proof fn lemma_key_names_part_5()
    ensures
        key_named(seq!['f', '1']) == Some(KeyCode::F1),
        key_named(seq!['f', '2']) == Some(KeyCode::F2),
        key_named(seq!['f', '3']) == Some(KeyCode::F3),
        key_named(seq!['f', '4']) == Some(KeyCode::F4),
        key_named(seq!['f', '5']) == Some(KeyCode::F5),
        key_named(seq!['f', '6']) == Some(KeyCode::F6),
        key_named(seq!['f', '7']) == Some(KeyCode::F7),
        key_named(seq!['f', '8']) == Some(KeyCode::F8),
        key_named(seq!['f', '9']) == Some(KeyCode::F9),
        key_named(seq!['f', '1', '0']) == Some(KeyCode::F10),
        key_named(seq!['f', '1', '1']) == Some(KeyCode::F11),
{
    reveal(key_named);
    assert(seq!['f', '1'].len() == 2 && seq!['f', '1'][0] == 'f' && seq!['f', '1'][1] == '1');
    assert(seq!['f', '2'].len() == 2 && seq!['f', '2'][0] == 'f' && seq!['f', '2'][1] == '2');
    assert(seq!['f', '3'].len() == 2 && seq!['f', '3'][0] == 'f' && seq!['f', '3'][1] == '3');
    assert(seq!['f', '4'].len() == 2 && seq!['f', '4'][0] == 'f' && seq!['f', '4'][1] == '4');
    assert(seq!['f', '5'].len() == 2 && seq!['f', '5'][0] == 'f' && seq!['f', '5'][1] == '5');
    assert(seq!['f', '6'].len() == 2 && seq!['f', '6'][0] == 'f' && seq!['f', '6'][1] == '6');
    assert(seq!['f', '7'].len() == 2 && seq!['f', '7'][0] == 'f' && seq!['f', '7'][1] == '7');
    assert(seq!['f', '8'].len() == 2 && seq!['f', '8'][0] == 'f' && seq!['f', '8'][1] == '8');
    assert(seq!['f', '9'].len() == 2 && seq!['f', '9'][0] == 'f' && seq!['f', '9'][1] == '9');
    assert(seq!['f', '1', '0'].len() == 3 && seq!['f', '1', '0'][0] == 'f' && seq!['f', '1', '0'][1] == '1' && seq!['f', '1', '0'][2] == '0');
    assert(seq!['f', '1', '1'].len() == 3 && seq!['f', '1', '1'][0] == 'f' && seq!['f', '1', '1'][1] == '1' && seq!['f', '1', '1'][2] == '1');
}

/// Names of the table read as their keys (part 6 of 8).
proof fn lemma_key_names_part_6()
    ensures
        key_named(seq!['f', '1', '2']) == Some(KeyCode::F12),
        key_named(seq!['s', 'p', 'a', 'c', 'e']) == Some(KeyCode::Space),
        key_named(seq!['e', 'n', 't', 'e', 'r']) == Some(KeyCode::Enter),
        key_named(seq!['r', 'e', 't', 'u', 'r', 'n']) == Some(KeyCode::Enter),
        key_named(seq!['e', 's', 'c']) == Some(KeyCode::Escape),
        key_named(seq!['e', 's', 'c', 'a', 'p', 'e']) == Some(KeyCode::Escape),
        key_named(seq!['t', 'a', 'b']) == Some(KeyCode::Tab),
        key_named(seq!['b', 'a', 'c', 'k', 's', 'p', 'a', 'c', 'e']) == Some(KeyCode::Backspace),
        key_named(seq!['d', 'e', 'l', 'e', 't', 'e']) == Some(KeyCode::Delete),
        key_named(seq!['d', 'e', 'l']) == Some(KeyCode::Delete),
        key_named(seq!['i', 'n', 's', 'e', 'r', 't']) == Some(KeyCode::Insert),
{
    reveal(key_named);
    assert(seq!['f', '1', '2'].len() == 3 && seq!['f', '1', '2'][0] == 'f' && seq!['f', '1', '2'][1] == '1' && seq!['f', '1', '2'][2] == '2');
    assert(seq!['s', 'p', 'a', 'c', 'e'].len() == 5 && seq!['s', 'p', 'a', 'c', 'e'][0] == 's' && seq!['s', 'p', 'a', 'c', 'e'][1] == 'p' && seq!['s', 'p', 'a', 'c', 'e'][2] == 'a' && seq!['s', 'p', 'a', 'c', 'e'][3] == 'c' && seq!['s', 'p', 'a', 'c', 'e'][4] == 'e');
    assert(seq!['e', 'n', 't', 'e', 'r'].len() == 5 && seq!['e', 'n', 't', 'e', 'r'][0] == 'e' && seq!['e', 'n', 't', 'e', 'r'][1] == 'n' && seq!['e', 'n', 't', 'e', 'r'][2] == 't' && seq!['e', 'n', 't', 'e', 'r'][3] == 'e' && seq!['e', 'n', 't', 'e', 'r'][4] == 'r');
    assert(seq!['r', 'e', 't', 'u', 'r', 'n'].len() == 6 && seq!['r', 'e', 't', 'u', 'r', 'n'][0] == 'r' && seq!['r', 'e', 't', 'u', 'r', 'n'][1] == 'e' && seq!['r', 'e', 't', 'u', 'r', 'n'][2] == 't' && seq!['r', 'e', 't', 'u', 'r', 'n'][3] == 'u' && seq!['r', 'e', 't', 'u', 'r', 'n'][4] == 'r' && seq!['r', 'e', 't', 'u', 'r', 'n'][5] == 'n');
    assert(seq!['e', 's', 'c'].len() == 3 && seq!['e', 's', 'c'][0] == 'e' && seq!['e', 's', 'c'][1] == 's' && seq!['e', 's', 'c'][2] == 'c');
    assert(seq!['e', 's', 'c', 'a', 'p', 'e'].len() == 6 && seq!['e', 's', 'c', 'a', 'p', 'e'][0] == 'e' && seq!['e', 's', 'c', 'a', 'p', 'e'][1] == 's' && seq!['e', 's', 'c', 'a', 'p', 'e'][2] == 'c' && seq!['e', 's', 'c', 'a', 'p', 'e'][3] == 'a' && seq!['e', 's', 'c', 'a', 'p', 'e'][4] == 'p' && seq!['e', 's', 'c', 'a', 'p', 'e'][5] == 'e');
    assert(seq!['t', 'a', 'b'].len() == 3 && seq!['t', 'a', 'b'][0] == 't' && seq!['t', 'a', 'b'][1] == 'a' && seq!['t', 'a', 'b'][2] == 'b');
    assert(seq!['b', 'a', 'c', 'k', 's', 'p', 'a', 'c', 'e'].len() == 9 && seq!['b', 'a', 'c', 'k', 's', 'p', 'a', 'c', 'e'][0] == 'b' && seq!['b', 'a', 'c', 'k', 's', 'p', 'a', 'c', 'e'][1] == 'a' && seq!['b', 'a', 'c', 'k', 's', 'p', 'a', 'c', 'e'][2] == 'c' && seq!['b', 'a', 'c', 'k', 's', 'p', 'a', 'c', 'e'][3] == 'k' && seq!['b', 'a', 'c', 'k', 's', 'p', 'a', 'c', 'e'][4] == 's' && seq!['b', 'a', 'c', 'k', 's', 'p', 'a', 'c', 'e'][5] == 'p' && seq!['b', 'a', 'c', 'k', 's', 'p', 'a', 'c', 'e'][6] == 'a' && seq!['b', 'a', 'c', 'k', 's', 'p', 'a', 'c', 'e'][7] == 'c' && seq!['b', 'a', 'c', 'k', 's', 'p', 'a', 'c', 'e'][8] == 'e');
    assert(seq!['d', 'e', 'l', 'e', 't', 'e'].len() == 6 && seq!['d', 'e', 'l', 'e', 't', 'e'][0] == 'd' && seq!['d', 'e', 'l', 'e', 't', 'e'][1] == 'e' && seq!['d', 'e', 'l', 'e', 't', 'e'][2] == 'l' && seq!['d', 'e', 'l', 'e', 't', 'e'][3] == 'e' && seq!['d', 'e', 'l', 'e', 't', 'e'][4] == 't' && seq!['d', 'e', 'l', 'e', 't', 'e'][5] == 'e');
    assert(seq!['d', 'e', 'l'].len() == 3 && seq!['d', 'e', 'l'][0] == 'd' && seq!['d', 'e', 'l'][1] == 'e' && seq!['d', 'e', 'l'][2] == 'l');
    assert(seq!['i', 'n', 's', 'e', 'r', 't'].len() == 6 && seq!['i', 'n', 's', 'e', 'r', 't'][0] == 'i' && seq!['i', 'n', 's', 'e', 'r', 't'][1] == 'n' && seq!['i', 'n', 's', 'e', 'r', 't'][2] == 's' && seq!['i', 'n', 's', 'e', 'r', 't'][3] == 'e' && seq!['i', 'n', 's', 'e', 'r', 't'][4] == 'r' && seq!['i', 'n', 's', 'e', 'r', 't'][5] == 't');
}

/// Names of the table read as their keys (part 7 of 8).
proof fn lemma_key_names_part_7()
    ensures
        key_named(seq!['i', 'n', 's']) == Some(KeyCode::Insert),
        key_named(seq!['h', 'o', 'm', 'e']) == Some(KeyCode::Home),
        key_named(seq!['e', 'n', 'd']) == Some(KeyCode::End),
        key_named(seq!['p', 'a', 'g', 'e', 'u', 'p']) == Some(KeyCode::PageUp),
        key_named(seq!['p', 'a', 'g', 'e', 'd', 'o', 'w', 'n']) == Some(KeyCode::PageDown),
        key_named(seq!['s', 'e', 'm', 'i', 'c', 'o', 'l', 'o', 'n']) == Some(KeyCode::Semicolon),
        key_named(seq!['c', 'o', 'm', 'm', 'a']) == Some(KeyCode::Comma),
        key_named(seq!['p', 'e', 'r', 'i', 'o', 'd']) == Some(KeyCode::Period),
        key_named(seq!['d', 'o', 't']) == Some(KeyCode::Period),
        key_named(seq!['s', 'l', 'a', 's', 'h']) == Some(KeyCode::Slash),
        key_named(seq!['b', 'a', 'c', 'k', 's', 'l', 'a', 's', 'h']) == Some(KeyCode::Backslash),
{
    reveal(key_named);
    assert(seq!['i', 'n', 's'].len() == 3 && seq!['i', 'n', 's'][0] == 'i' && seq!['i', 'n', 's'][1] == 'n' && seq!['i', 'n', 's'][2] == 's');
    assert(seq!['h', 'o', 'm', 'e'].len() == 4 && seq!['h', 'o', 'm', 'e'][0] == 'h' && seq!['h', 'o', 'm', 'e'][1] == 'o' && seq!['h', 'o', 'm', 'e'][2] == 'm' && seq!['h', 'o', 'm', 'e'][3] == 'e');
    assert(seq!['e', 'n', 'd'].len() == 3 && seq!['e', 'n', 'd'][0] == 'e' && seq!['e', 'n', 'd'][1] == 'n' && seq!['e', 'n', 'd'][2] == 'd');
    assert(seq!['p', 'a', 'g', 'e', 'u', 'p'].len() == 6 && seq!['p', 'a', 'g', 'e', 'u', 'p'][0] == 'p' && seq!['p', 'a', 'g', 'e', 'u', 'p'][1] == 'a' && seq!['p', 'a', 'g', 'e', 'u', 'p'][2] == 'g' && seq!['p', 'a', 'g', 'e', 'u', 'p'][3] == 'e' && seq!['p', 'a', 'g', 'e', 'u', 'p'][4] == 'u' && seq!['p', 'a', 'g', 'e', 'u', 'p'][5] == 'p');
    assert(seq!['p', 'a', 'g', 'e', 'd', 'o', 'w', 'n'].len() == 8 && seq!['p', 'a', 'g', 'e', 'd', 'o', 'w', 'n'][0] == 'p' && seq!['p', 'a', 'g', 'e', 'd', 'o', 'w', 'n'][1] == 'a' && seq!['p', 'a', 'g', 'e', 'd', 'o', 'w', 'n'][2] == 'g' && seq!['p', 'a', 'g', 'e', 'd', 'o', 'w', 'n'][3] == 'e' && seq!['p', 'a', 'g', 'e', 'd', 'o', 'w', 'n'][4] == 'd' && seq!['p', 'a', 'g', 'e', 'd', 'o', 'w', 'n'][5] == 'o' && seq!['p', 'a', 'g', 'e', 'd', 'o', 'w', 'n'][6] == 'w' && seq!['p', 'a', 'g', 'e', 'd', 'o', 'w', 'n'][7] == 'n');
    assert(seq!['s', 'e', 'm', 'i', 'c', 'o', 'l', 'o', 'n'].len() == 9 && seq!['s', 'e', 'm', 'i', 'c', 'o', 'l', 'o', 'n'][0] == 's' && seq!['s', 'e', 'm', 'i', 'c', 'o', 'l', 'o', 'n'][1] == 'e' && seq!['s', 'e', 'm', 'i', 'c', 'o', 'l', 'o', 'n'][2] == 'm' && seq!['s', 'e', 'm', 'i', 'c', 'o', 'l', 'o', 'n'][3] == 'i' && seq!['s', 'e', 'm', 'i', 'c', 'o', 'l', 'o', 'n'][4] == 'c' && seq!['s', 'e', 'm', 'i', 'c', 'o', 'l', 'o', 'n'][5] == 'o' && seq!['s', 'e', 'm', 'i', 'c', 'o', 'l', 'o', 'n'][6] == 'l' && seq!['s', 'e', 'm', 'i', 'c', 'o', 'l', 'o', 'n'][7] == 'o' && seq!['s', 'e', 'm', 'i', 'c', 'o', 'l', 'o', 'n'][8] == 'n');
    assert(seq!['c', 'o', 'm', 'm', 'a'].len() == 5 && seq!['c', 'o', 'm', 'm', 'a'][0] == 'c' && seq!['c', 'o', 'm', 'm', 'a'][1] == 'o' && seq!['c', 'o', 'm', 'm', 'a'][2] == 'm' && seq!['c', 'o', 'm', 'm', 'a'][3] == 'm' && seq!['c', 'o', 'm', 'm', 'a'][4] == 'a');
    assert(seq!['p', 'e', 'r', 'i', 'o', 'd'].len() == 6 && seq!['p', 'e', 'r', 'i', 'o', 'd'][0] == 'p' && seq!['p', 'e', 'r', 'i', 'o', 'd'][1] == 'e' && seq!['p', 'e', 'r', 'i', 'o', 'd'][2] == 'r' && seq!['p', 'e', 'r', 'i', 'o', 'd'][3] == 'i' && seq!['p', 'e', 'r', 'i', 'o', 'd'][4] == 'o' && seq!['p', 'e', 'r', 'i', 'o', 'd'][5] == 'd');
    assert(seq!['d', 'o', 't'].len() == 3 && seq!['d', 'o', 't'][0] == 'd' && seq!['d', 'o', 't'][1] == 'o' && seq!['d', 'o', 't'][2] == 't');
    assert(seq!['s', 'l', 'a', 's', 'h'].len() == 5 && seq!['s', 'l', 'a', 's', 'h'][0] == 's' && seq!['s', 'l', 'a', 's', 'h'][1] == 'l' && seq!['s', 'l', 'a', 's', 'h'][2] == 'a' && seq!['s', 'l', 'a', 's', 'h'][3] == 's' && seq!['s', 'l', 'a', 's', 'h'][4] == 'h');
    assert(seq!['b', 'a', 'c', 'k', 's', 'l', 'a', 's', 'h'].len() == 9 && seq!['b', 'a', 'c', 'k', 's', 'l', 'a', 's', 'h'][0] == 'b' && seq!['b', 'a', 'c', 'k', 's', 'l', 'a', 's', 'h'][1] == 'a' && seq!['b', 'a', 'c', 'k', 's', 'l', 'a', 's', 'h'][2] == 'c' && seq!['b', 'a', 'c', 'k', 's', 'l', 'a', 's', 'h'][3] == 'k' && seq!['b', 'a', 'c', 'k', 's', 'l', 'a', 's', 'h'][4] == 's' && seq!['b', 'a', 'c', 'k', 's', 'l', 'a', 's', 'h'][5] == 'l' && seq!['b', 'a', 'c', 'k', 's', 'l', 'a', 's', 'h'][6] == 'a' && seq!['b', 'a', 'c', 'k', 's', 'l', 'a', 's', 'h'][7] == 's' && seq!['b', 'a', 'c', 'k', 's', 'l', 'a', 's', 'h'][8] == 'h');
}

/// Names of the table read as their keys (part 8 of 8).
proof fn lemma_key_names_part_8()
    ensures
        key_named(seq!['m', 'i', 'n', 'u', 's']) == Some(KeyCode::Minus),
        key_named(seq!['e', 'q', 'u', 'a', 'l', 's']) == Some(KeyCode::Equal),
        key_named(seq!['e', 'q', 'u', 'a', 'l']) == Some(KeyCode::Equal),
        key_named(seq!['q', 'u', 'o', 't', 'e']) == Some(KeyCode::Quote),
        key_named(seq!['a', 'p', 'o', 's', 't', 'r', 'o', 'p', 'h', 'e']) == Some(KeyCode::Quote),
        key_named(seq!['b', 'a', 'c', 'k', 'q', 'u', 'o', 't', 'e']) == Some(KeyCode::Backquote),
        key_named(seq!['g', 'r', 'a', 'v', 'e']) == Some(KeyCode::Backquote),
        key_named(seq!['b', 'r', 'a', 'c', 'k', 'e', 't', 'l', 'e', 'f', 't']) == Some(KeyCode::BracketLeft),
        key_named(seq!['[']) == Some(KeyCode::BracketLeft),
        key_named(seq!['b', 'r', 'a', 'c', 'k', 'e', 't', 'r', 'i', 'g', 'h', 't']) == Some(KeyCode::BracketRight),
        key_named(seq![']']) == Some(KeyCode::BracketRight),
{
    reveal(key_named);
    assert(seq!['m', 'i', 'n', 'u', 's'].len() == 5 && seq!['m', 'i', 'n', 'u', 's'][0] == 'm' && seq!['m', 'i', 'n', 'u', 's'][1] == 'i' && seq!['m', 'i', 'n', 'u', 's'][2] == 'n' && seq!['m', 'i', 'n', 'u', 's'][3] == 'u' && seq!['m', 'i', 'n', 'u', 's'][4] == 's');
    assert(seq!['e', 'q', 'u', 'a', 'l', 's'].len() == 6 && seq!['e', 'q', 'u', 'a', 'l', 's'][0] == 'e' && seq!['e', 'q', 'u', 'a', 'l', 's'][1] == 'q' && seq!['e', 'q', 'u', 'a', 'l', 's'][2] == 'u' && seq!['e', 'q', 'u', 'a', 'l', 's'][3] == 'a' && seq!['e', 'q', 'u', 'a', 'l', 's'][4] == 'l' && seq!['e', 'q', 'u', 'a', 'l', 's'][5] == 's');
    assert(seq!['e', 'q', 'u', 'a', 'l'].len() == 5 && seq!['e', 'q', 'u', 'a', 'l'][0] == 'e' && seq!['e', 'q', 'u', 'a', 'l'][1] == 'q' && seq!['e', 'q', 'u', 'a', 'l'][2] == 'u' && seq!['e', 'q', 'u', 'a', 'l'][3] == 'a' && seq!['e', 'q', 'u', 'a', 'l'][4] == 'l');
    assert(seq!['q', 'u', 'o', 't', 'e'].len() == 5 && seq!['q', 'u', 'o', 't', 'e'][0] == 'q' && seq!['q', 'u', 'o', 't', 'e'][1] == 'u' && seq!['q', 'u', 'o', 't', 'e'][2] == 'o' && seq!['q', 'u', 'o', 't', 'e'][3] == 't' && seq!['q', 'u', 'o', 't', 'e'][4] == 'e');
    assert(seq!['a', 'p', 'o', 's', 't', 'r', 'o', 'p', 'h', 'e'].len() == 10 && seq!['a', 'p', 'o', 's', 't', 'r', 'o', 'p', 'h', 'e'][0] == 'a' && seq!['a', 'p', 'o', 's', 't', 'r', 'o', 'p', 'h', 'e'][1] == 'p' && seq!['a', 'p', 'o', 's', 't', 'r', 'o', 'p', 'h', 'e'][2] == 'o' && seq!['a', 'p', 'o', 's', 't', 'r', 'o', 'p', 'h', 'e'][3] == 's' && seq!['a', 'p', 'o', 's', 't', 'r', 'o', 'p', 'h', 'e'][4] == 't' && seq!['a', 'p', 'o', 's', 't', 'r', 'o', 'p', 'h', 'e'][5] == 'r' && seq!['a', 'p', 'o', 's', 't', 'r', 'o', 'p', 'h', 'e'][6] == 'o' && seq!['a', 'p', 'o', 's', 't', 'r', 'o', 'p', 'h', 'e'][7] == 'p' && seq!['a', 'p', 'o', 's', 't', 'r', 'o', 'p', 'h', 'e'][8] == 'h' && seq!['a', 'p', 'o', 's', 't', 'r', 'o', 'p', 'h', 'e'][9] == 'e');
    assert(seq!['b', 'a', 'c', 'k', 'q', 'u', 'o', 't', 'e'].len() == 9 && seq!['b', 'a', 'c', 'k', 'q', 'u', 'o', 't', 'e'][0] == 'b' && seq!['b', 'a', 'c', 'k', 'q', 'u', 'o', 't', 'e'][1] == 'a' && seq!['b', 'a', 'c', 'k', 'q', 'u', 'o', 't', 'e'][2] == 'c' && seq!['b', 'a', 'c', 'k', 'q', 'u', 'o', 't', 'e'][3] == 'k' && seq!['b', 'a', 'c', 'k', 'q', 'u', 'o', 't', 'e'][4] == 'q' && seq!['b', 'a', 'c', 'k', 'q', 'u', 'o', 't', 'e'][5] == 'u' && seq!['b', 'a', 'c', 'k', 'q', 'u', 'o', 't', 'e'][6] == 'o' && seq!['b', 'a', 'c', 'k', 'q', 'u', 'o', 't', 'e'][7] == 't' && seq!['b', 'a', 'c', 'k', 'q', 'u', 'o', 't', 'e'][8] == 'e');
    assert(seq!['g', 'r', 'a', 'v', 'e'].len() == 5 && seq!['g', 'r', 'a', 'v', 'e'][0] == 'g' && seq!['g', 'r', 'a', 'v', 'e'][1] == 'r' && seq!['g', 'r', 'a', 'v', 'e'][2] == 'a' && seq!['g', 'r', 'a', 'v', 'e'][3] == 'v' && seq!['g', 'r', 'a', 'v', 'e'][4] == 'e');
    assert(seq!['b', 'r', 'a', 'c', 'k', 'e', 't', 'l', 'e', 'f', 't'].len() == 11 && seq!['b', 'r', 'a', 'c', 'k', 'e', 't', 'l', 'e', 'f', 't'][0] == 'b' && seq!['b', 'r', 'a', 'c', 'k', 'e', 't', 'l', 'e', 'f', 't'][1] == 'r' && seq!['b', 'r', 'a', 'c', 'k', 'e', 't', 'l', 'e', 'f', 't'][2] == 'a' && seq!['b', 'r', 'a', 'c', 'k', 'e', 't', 'l', 'e', 'f', 't'][3] == 'c' && seq!['b', 'r', 'a', 'c', 'k', 'e', 't', 'l', 'e', 'f', 't'][4] == 'k' && seq!['b', 'r', 'a', 'c', 'k', 'e', 't', 'l', 'e', 'f', 't'][5] == 'e' && seq!['b', 'r', 'a', 'c', 'k', 'e', 't', 'l', 'e', 'f', 't'][6] == 't' && seq!['b', 'r', 'a', 'c', 'k', 'e', 't', 'l', 'e', 'f', 't'][7] == 'l' && seq!['b', 'r', 'a', 'c', 'k', 'e', 't', 'l', 'e', 'f', 't'][8] == 'e' && seq!['b', 'r', 'a', 'c', 'k', 'e', 't', 'l', 'e', 'f', 't'][9] == 'f' && seq!['b', 'r', 'a', 'c', 'k', 'e', 't', 'l', 'e', 'f', 't'][10] == 't');
    assert(seq!['['].len() == 1 && seq!['['][0] == '[');
    assert(seq!['b', 'r', 'a', 'c', 'k', 'e', 't', 'r', 'i', 'g', 'h', 't'].len() == 12 && seq!['b', 'r', 'a', 'c', 'k', 'e', 't', 'r', 'i', 'g', 'h', 't'][0] == 'b' && seq!['b', 'r', 'a', 'c', 'k', 'e', 't', 'r', 'i', 'g', 'h', 't'][1] == 'r' && seq!['b', 'r', 'a', 'c', 'k', 'e', 't', 'r', 'i', 'g', 'h', 't'][2] == 'a' && seq!['b', 'r', 'a', 'c', 'k', 'e', 't', 'r', 'i', 'g', 'h', 't'][3] == 'c' && seq!['b', 'r', 'a', 'c', 'k', 'e', 't', 'r', 'i', 'g', 'h', 't'][4] == 'k' && seq!['b', 'r', 'a', 'c', 'k', 'e', 't', 'r', 'i', 'g', 'h', 't'][5] == 'e' && seq!['b', 'r', 'a', 'c', 'k', 'e', 't', 'r', 'i', 'g', 'h', 't'][6] == 't' && seq!['b', 'r', 'a', 'c', 'k', 'e', 't', 'r', 'i', 'g', 'h', 't'][7] == 'r' && seq!['b', 'r', 'a', 'c', 'k', 'e', 't', 'r', 'i', 'g', 'h', 't'][8] == 'i' && seq!['b', 'r', 'a', 'c', 'k', 'e', 't', 'r', 'i', 'g', 'h', 't'][9] == 'g' && seq!['b', 'r', 'a', 'c', 'k', 'e', 't', 'r', 'i', 'g', 'h', 't'][10] == 'h' && seq!['b', 'r', 'a', 'c', 'k', 'e', 't', 'r', 'i', 'g', 'h', 't'][11] == 't');
    assert(seq![']'].len() == 1 && seq![']'][0] == ']');
}

/// Every name listed for a key reads as that key, for every key.
pub proof fn law_key_names_read_as_their_key(k: KeyCode)
    ensures
        forall|i: int|
            0 <= i < names_of_key(k).len() ==> key_named(#[trigger] names_of_key(k)[i]) == Some(k),
{
    lemma_key_names_part_1();
    lemma_key_names_part_2();
    lemma_key_names_part_3();
    lemma_key_names_part_4();
    lemma_key_names_part_5();
    lemma_key_names_part_6();
    lemma_key_names_part_7();
    lemma_key_names_part_8();
    reveal_with_fuel(all_read_as, 3);
    assert(all_read_as(names_of_key(k), k)) by {
        match k {
            KeyCode::KeyA => {},
            KeyCode::KeyB => {},
            KeyCode::KeyC => {},
            KeyCode::KeyD => {},
            KeyCode::KeyE => {},
            KeyCode::KeyF => {},
            KeyCode::KeyG => {},
            KeyCode::KeyH => {},
            KeyCode::KeyI => {},
            KeyCode::KeyJ => {},
            KeyCode::KeyK => {},
            KeyCode::KeyL => {},
            KeyCode::KeyM => {},
            KeyCode::KeyN => {},
            KeyCode::KeyO => {},
            KeyCode::KeyP => {},
            KeyCode::KeyQ => {},
            KeyCode::KeyR => {},
            KeyCode::KeyS => {},
            KeyCode::KeyT => {},
            KeyCode::KeyU => {},
            KeyCode::KeyV => {},
            KeyCode::KeyW => {},
            KeyCode::KeyX => {},
            KeyCode::KeyY => {},
            KeyCode::KeyZ => {},
            KeyCode::Digit0 => {},
            KeyCode::Digit1 => {},
            KeyCode::Digit2 => {},
            KeyCode::Digit3 => {},
            KeyCode::Digit4 => {},
            KeyCode::Digit5 => {},
            KeyCode::Digit6 => {},
            KeyCode::Digit7 => {},
            KeyCode::Digit8 => {},
            KeyCode::Digit9 => {},
            KeyCode::ArrowUp => {},
            KeyCode::ArrowDown => {},
            KeyCode::ArrowLeft => {},
            KeyCode::ArrowRight => {},
            KeyCode::F1 => {},
            KeyCode::F2 => {},
            KeyCode::F3 => {},
            KeyCode::F4 => {},
            KeyCode::F5 => {},
            KeyCode::F6 => {},
            KeyCode::F7 => {},
            KeyCode::F8 => {},
            KeyCode::F9 => {},
            KeyCode::F10 => {},
            KeyCode::F11 => {},
            KeyCode::F12 => {},
            KeyCode::Space => {},
            KeyCode::Enter => {},
            KeyCode::Escape => {},
            KeyCode::Tab => {},
            KeyCode::Backspace => {},
            KeyCode::Delete => {},
            KeyCode::Insert => {},
            KeyCode::Home => {},
            KeyCode::End => {},
            KeyCode::PageUp => {},
            KeyCode::PageDown => {},
            KeyCode::Semicolon => {},
            KeyCode::Comma => {},
            KeyCode::Period => {},
            KeyCode::Slash => {},
            KeyCode::Backslash => {},
            KeyCode::Minus => {},
            KeyCode::Equal => {},
            KeyCode::Quote => {},
            KeyCode::Backquote => {},
            KeyCode::BracketLeft => {},
            KeyCode::BracketRight => {},
            KeyCode::Other => {},
        }
    }
    lemma_all_read_as(names_of_key(k), k);
}

/// Names of the table are listed for their keys (part 1 of 4).
proof fn lemma_key_names_listed_1()
    ensures
        names_of_key(KeyCode::KeyA).contains(seq!['a']),
        names_of_key(KeyCode::KeyB).contains(seq!['b']),
        names_of_key(KeyCode::KeyC).contains(seq!['c']),
        names_of_key(KeyCode::KeyD).contains(seq!['d']),
        names_of_key(KeyCode::KeyE).contains(seq!['e']),
        names_of_key(KeyCode::KeyF).contains(seq!['f']),
        names_of_key(KeyCode::KeyG).contains(seq!['g']),
        names_of_key(KeyCode::KeyH).contains(seq!['h']),
        names_of_key(KeyCode::KeyI).contains(seq!['i']),
        names_of_key(KeyCode::KeyJ).contains(seq!['j']),
        names_of_key(KeyCode::KeyK).contains(seq!['k']),
        names_of_key(KeyCode::KeyL).contains(seq!['l']),
        names_of_key(KeyCode::KeyM).contains(seq!['m']),
        names_of_key(KeyCode::KeyN).contains(seq!['n']),
        names_of_key(KeyCode::KeyO).contains(seq!['o']),
        names_of_key(KeyCode::KeyP).contains(seq!['p']),
        names_of_key(KeyCode::KeyQ).contains(seq!['q']),
        names_of_key(KeyCode::KeyR).contains(seq!['r']),
        names_of_key(KeyCode::KeyS).contains(seq!['s']),
        names_of_key(KeyCode::KeyT).contains(seq!['t']),
        names_of_key(KeyCode::KeyU).contains(seq!['u']),
        names_of_key(KeyCode::KeyV).contains(seq!['v']),
{
    assert(names_of_key(KeyCode::KeyA)[0] == seq!['a']);
    assert(names_of_key(KeyCode::KeyB)[0] == seq!['b']);
    assert(names_of_key(KeyCode::KeyC)[0] == seq!['c']);
    assert(names_of_key(KeyCode::KeyD)[0] == seq!['d']);
    assert(names_of_key(KeyCode::KeyE)[0] == seq!['e']);
    assert(names_of_key(KeyCode::KeyF)[0] == seq!['f']);
    assert(names_of_key(KeyCode::KeyG)[0] == seq!['g']);
    assert(names_of_key(KeyCode::KeyH)[0] == seq!['h']);
    assert(names_of_key(KeyCode::KeyI)[0] == seq!['i']);
    assert(names_of_key(KeyCode::KeyJ)[0] == seq!['j']);
    assert(names_of_key(KeyCode::KeyK)[0] == seq!['k']);
    assert(names_of_key(KeyCode::KeyL)[0] == seq!['l']);
    assert(names_of_key(KeyCode::KeyM)[0] == seq!['m']);
    assert(names_of_key(KeyCode::KeyN)[0] == seq!['n']);
    assert(names_of_key(KeyCode::KeyO)[0] == seq!['o']);
    assert(names_of_key(KeyCode::KeyP)[0] == seq!['p']);
    assert(names_of_key(KeyCode::KeyQ)[0] == seq!['q']);
    assert(names_of_key(KeyCode::KeyR)[0] == seq!['r']);
    assert(names_of_key(KeyCode::KeyS)[0] == seq!['s']);
    assert(names_of_key(KeyCode::KeyT)[0] == seq!['t']);
    assert(names_of_key(KeyCode::KeyU)[0] == seq!['u']);
    assert(names_of_key(KeyCode::KeyV)[0] == seq!['v']);
}

/// Names of the table are listed for their keys (part 2 of 4).
proof fn lemma_key_names_listed_2()
    ensures
        names_of_key(KeyCode::KeyW).contains(seq!['w']),
        names_of_key(KeyCode::KeyX).contains(seq!['x']),
        names_of_key(KeyCode::KeyY).contains(seq!['y']),
        names_of_key(KeyCode::KeyZ).contains(seq!['z']),
        names_of_key(KeyCode::Digit0).contains(seq!['0']),
        names_of_key(KeyCode::Digit1).contains(seq!['1']),
        names_of_key(KeyCode::Digit2).contains(seq!['2']),
        names_of_key(KeyCode::Digit3).contains(seq!['3']),
        names_of_key(KeyCode::Digit4).contains(seq!['4']),
        names_of_key(KeyCode::Digit5).contains(seq!['5']),
        names_of_key(KeyCode::Digit6).contains(seq!['6']),
        names_of_key(KeyCode::Digit7).contains(seq!['7']),
        names_of_key(KeyCode::Digit8).contains(seq!['8']),
        names_of_key(KeyCode::Digit9).contains(seq!['9']),
        names_of_key(KeyCode::ArrowUp).contains(seq!['u', 'p']),
        names_of_key(KeyCode::ArrowUp).contains(seq!['a', 'r', 'r', 'o', 'w', 'u', 'p']),
        names_of_key(KeyCode::ArrowDown).contains(seq!['d', 'o', 'w', 'n']),
        names_of_key(KeyCode::ArrowDown).contains(seq!['a', 'r', 'r', 'o', 'w', 'd', 'o', 'w', 'n']),
        names_of_key(KeyCode::ArrowLeft).contains(seq!['l', 'e', 'f', 't']),
        names_of_key(KeyCode::ArrowLeft).contains(seq!['a', 'r', 'r', 'o', 'w', 'l', 'e', 'f', 't']),
        names_of_key(KeyCode::ArrowRight).contains(seq!['r', 'i', 'g', 'h', 't']),
        names_of_key(KeyCode::ArrowRight).contains(seq!['a', 'r', 'r', 'o', 'w', 'r', 'i', 'g', 'h', 't']),
{
    assert(names_of_key(KeyCode::KeyW)[0] == seq!['w']);
    assert(names_of_key(KeyCode::KeyX)[0] == seq!['x']);
    assert(names_of_key(KeyCode::KeyY)[0] == seq!['y']);
    assert(names_of_key(KeyCode::KeyZ)[0] == seq!['z']);
    assert(names_of_key(KeyCode::Digit0)[0] == seq!['0']);
    assert(names_of_key(KeyCode::Digit1)[0] == seq!['1']);
    assert(names_of_key(KeyCode::Digit2)[0] == seq!['2']);
    assert(names_of_key(KeyCode::Digit3)[0] == seq!['3']);
    assert(names_of_key(KeyCode::Digit4)[0] == seq!['4']);
    assert(names_of_key(KeyCode::Digit5)[0] == seq!['5']);
    assert(names_of_key(KeyCode::Digit6)[0] == seq!['6']);
    assert(names_of_key(KeyCode::Digit7)[0] == seq!['7']);
    assert(names_of_key(KeyCode::Digit8)[0] == seq!['8']);
    assert(names_of_key(KeyCode::Digit9)[0] == seq!['9']);
    assert(names_of_key(KeyCode::ArrowUp)[0] == seq!['u', 'p']);
    assert(names_of_key(KeyCode::ArrowUp)[1] == seq!['a', 'r', 'r', 'o', 'w', 'u', 'p']);
    assert(names_of_key(KeyCode::ArrowDown)[0] == seq!['d', 'o', 'w', 'n']);
    assert(names_of_key(KeyCode::ArrowDown)[1] == seq!['a', 'r', 'r', 'o', 'w', 'd', 'o', 'w', 'n']);
    assert(names_of_key(KeyCode::ArrowLeft)[0] == seq!['l', 'e', 'f', 't']);
    assert(names_of_key(KeyCode::ArrowLeft)[1] == seq!['a', 'r', 'r', 'o', 'w', 'l', 'e', 'f', 't']);
    assert(names_of_key(KeyCode::ArrowRight)[0] == seq!['r', 'i', 'g', 'h', 't']);
    assert(names_of_key(KeyCode::ArrowRight)[1] == seq!['a', 'r', 'r', 'o', 'w', 'r', 'i', 'g', 'h', 't']);
}

/// Names of the table are listed for their keys (part 3 of 4).
proof fn lemma_key_names_listed_3()
    ensures
        names_of_key(KeyCode::F1).contains(seq!['f', '1']),
        names_of_key(KeyCode::F2).contains(seq!['f', '2']),
        names_of_key(KeyCode::F3).contains(seq!['f', '3']),
        names_of_key(KeyCode::F4).contains(seq!['f', '4']),
        names_of_key(KeyCode::F5).contains(seq!['f', '5']),
        names_of_key(KeyCode::F6).contains(seq!['f', '6']),
        names_of_key(KeyCode::F7).contains(seq!['f', '7']),
        names_of_key(KeyCode::F8).contains(seq!['f', '8']),
        names_of_key(KeyCode::F9).contains(seq!['f', '9']),
        names_of_key(KeyCode::F10).contains(seq!['f', '1', '0']),
        names_of_key(KeyCode::F11).contains(seq!['f', '1', '1']),
        names_of_key(KeyCode::F12).contains(seq!['f', '1', '2']),
        names_of_key(KeyCode::Space).contains(seq!['s', 'p', 'a', 'c', 'e']),
        names_of_key(KeyCode::Enter).contains(seq!['e', 'n', 't', 'e', 'r']),
        names_of_key(KeyCode::Enter).contains(seq!['r', 'e', 't', 'u', 'r', 'n']),
        names_of_key(KeyCode::Escape).contains(seq!['e', 's', 'c']),
        names_of_key(KeyCode::Escape).contains(seq!['e', 's', 'c', 'a', 'p', 'e']),
        names_of_key(KeyCode::Tab).contains(seq!['t', 'a', 'b']),
        names_of_key(KeyCode::Backspace).contains(seq!['b', 'a', 'c', 'k', 's', 'p', 'a', 'c', 'e']),
        names_of_key(KeyCode::Delete).contains(seq!['d', 'e', 'l', 'e', 't', 'e']),
        names_of_key(KeyCode::Delete).contains(seq!['d', 'e', 'l']),
        names_of_key(KeyCode::Insert).contains(seq!['i', 'n', 's', 'e', 'r', 't']),
{
    assert(names_of_key(KeyCode::F1)[0] == seq!['f', '1']);
    assert(names_of_key(KeyCode::F2)[0] == seq!['f', '2']);
    assert(names_of_key(KeyCode::F3)[0] == seq!['f', '3']);
    assert(names_of_key(KeyCode::F4)[0] == seq!['f', '4']);
    assert(names_of_key(KeyCode::F5)[0] == seq!['f', '5']);
    assert(names_of_key(KeyCode::F6)[0] == seq!['f', '6']);
    assert(names_of_key(KeyCode::F7)[0] == seq!['f', '7']);
    assert(names_of_key(KeyCode::F8)[0] == seq!['f', '8']);
    assert(names_of_key(KeyCode::F9)[0] == seq!['f', '9']);
    assert(names_of_key(KeyCode::F10)[0] == seq!['f', '1', '0']);
    assert(names_of_key(KeyCode::F11)[0] == seq!['f', '1', '1']);
    assert(names_of_key(KeyCode::F12)[0] == seq!['f', '1', '2']);
    assert(names_of_key(KeyCode::Space)[0] == seq!['s', 'p', 'a', 'c', 'e']);
    assert(names_of_key(KeyCode::Enter)[0] == seq!['e', 'n', 't', 'e', 'r']);
    assert(names_of_key(KeyCode::Enter)[1] == seq!['r', 'e', 't', 'u', 'r', 'n']);
    assert(names_of_key(KeyCode::Escape)[0] == seq!['e', 's', 'c']);
    assert(names_of_key(KeyCode::Escape)[1] == seq!['e', 's', 'c', 'a', 'p', 'e']);
    assert(names_of_key(KeyCode::Tab)[0] == seq!['t', 'a', 'b']);
    assert(names_of_key(KeyCode::Backspace)[0] == seq!['b', 'a', 'c', 'k', 's', 'p', 'a', 'c', 'e']);
    assert(names_of_key(KeyCode::Delete)[0] == seq!['d', 'e', 'l', 'e', 't', 'e']);
    assert(names_of_key(KeyCode::Delete)[1] == seq!['d', 'e', 'l']);
    assert(names_of_key(KeyCode::Insert)[0] == seq!['i', 'n', 's', 'e', 'r', 't']);
}

/// Names of the table are listed for their keys (part 4 of 4).
proof fn lemma_key_names_listed_4()
    ensures
        names_of_key(KeyCode::Insert).contains(seq!['i', 'n', 's']),
        names_of_key(KeyCode::Home).contains(seq!['h', 'o', 'm', 'e']),
        names_of_key(KeyCode::End).contains(seq!['e', 'n', 'd']),
        names_of_key(KeyCode::PageUp).contains(seq!['p', 'a', 'g', 'e', 'u', 'p']),
        names_of_key(KeyCode::PageDown).contains(seq!['p', 'a', 'g', 'e', 'd', 'o', 'w', 'n']),
        names_of_key(KeyCode::Semicolon).contains(seq!['s', 'e', 'm', 'i', 'c', 'o', 'l', 'o', 'n']),
        names_of_key(KeyCode::Comma).contains(seq!['c', 'o', 'm', 'm', 'a']),
        names_of_key(KeyCode::Period).contains(seq!['p', 'e', 'r', 'i', 'o', 'd']),
        names_of_key(KeyCode::Period).contains(seq!['d', 'o', 't']),
        names_of_key(KeyCode::Slash).contains(seq!['s', 'l', 'a', 's', 'h']),
        names_of_key(KeyCode::Backslash).contains(seq!['b', 'a', 'c', 'k', 's', 'l', 'a', 's', 'h']),
        names_of_key(KeyCode::Minus).contains(seq!['m', 'i', 'n', 'u', 's']),
        names_of_key(KeyCode::Equal).contains(seq!['e', 'q', 'u', 'a', 'l', 's']),
        names_of_key(KeyCode::Equal).contains(seq!['e', 'q', 'u', 'a', 'l']),
        names_of_key(KeyCode::Quote).contains(seq!['q', 'u', 'o', 't', 'e']),
        names_of_key(KeyCode::Quote).contains(seq!['a', 'p', 'o', 's', 't', 'r', 'o', 'p', 'h', 'e']),
        names_of_key(KeyCode::Backquote).contains(seq!['b', 'a', 'c', 'k', 'q', 'u', 'o', 't', 'e']),
        names_of_key(KeyCode::Backquote).contains(seq!['g', 'r', 'a', 'v', 'e']),
        names_of_key(KeyCode::BracketLeft).contains(seq!['b', 'r', 'a', 'c', 'k', 'e', 't', 'l', 'e', 'f', 't']),
        names_of_key(KeyCode::BracketLeft).contains(seq!['[']),
        names_of_key(KeyCode::BracketRight).contains(seq!['b', 'r', 'a', 'c', 'k', 'e', 't', 'r', 'i', 'g', 'h', 't']),
        names_of_key(KeyCode::BracketRight).contains(seq![']']),
{
    assert(names_of_key(KeyCode::Insert)[1] == seq!['i', 'n', 's']);
    assert(names_of_key(KeyCode::Home)[0] == seq!['h', 'o', 'm', 'e']);
    assert(names_of_key(KeyCode::End)[0] == seq!['e', 'n', 'd']);
    assert(names_of_key(KeyCode::PageUp)[0] == seq!['p', 'a', 'g', 'e', 'u', 'p']);
    assert(names_of_key(KeyCode::PageDown)[0] == seq!['p', 'a', 'g', 'e', 'd', 'o', 'w', 'n']);
    assert(names_of_key(KeyCode::Semicolon)[0] == seq!['s', 'e', 'm', 'i', 'c', 'o', 'l', 'o', 'n']);
    assert(names_of_key(KeyCode::Comma)[0] == seq!['c', 'o', 'm', 'm', 'a']);
    assert(names_of_key(KeyCode::Period)[0] == seq!['p', 'e', 'r', 'i', 'o', 'd']);
    assert(names_of_key(KeyCode::Period)[1] == seq!['d', 'o', 't']);
    assert(names_of_key(KeyCode::Slash)[0] == seq!['s', 'l', 'a', 's', 'h']);
    assert(names_of_key(KeyCode::Backslash)[0] == seq!['b', 'a', 'c', 'k', 's', 'l', 'a', 's', 'h']);
    assert(names_of_key(KeyCode::Minus)[0] == seq!['m', 'i', 'n', 'u', 's']);
    assert(names_of_key(KeyCode::Equal)[0] == seq!['e', 'q', 'u', 'a', 'l', 's']);
    assert(names_of_key(KeyCode::Equal)[1] == seq!['e', 'q', 'u', 'a', 'l']);
    assert(names_of_key(KeyCode::Quote)[0] == seq!['q', 'u', 'o', 't', 'e']);
    assert(names_of_key(KeyCode::Quote)[1] == seq!['a', 'p', 'o', 's', 't', 'r', 'o', 'p', 'h', 'e']);
    assert(names_of_key(KeyCode::Backquote)[0] == seq!['b', 'a', 'c', 'k', 'q', 'u', 'o', 't', 'e']);
    assert(names_of_key(KeyCode::Backquote)[1] == seq!['g', 'r', 'a', 'v', 'e']);
    assert(names_of_key(KeyCode::BracketLeft)[0] == seq!['b', 'r', 'a', 'c', 'k', 'e', 't', 'l', 'e', 'f', 't']);
    assert(names_of_key(KeyCode::BracketLeft)[1] == seq!['[']);
    assert(names_of_key(KeyCode::BracketRight)[0] == seq!['b', 'r', 'a', 'c', 'k', 'e', 't', 'r', 'i', 'g', 'h', 't']);
    assert(names_of_key(KeyCode::BracketRight)[1] == seq![']']);
}

/// A name reads as a key only when it is listed for that key: no other name
/// is accepted, and none reads as a key it is not listed for.
#[verifier::rlimit(100)]
pub proof fn law_key_names_are_listed(name: Seq<char>)
    ensures
        key_named(name) matches Some(k) ==> names_of_key(k).contains(name),
{
    lemma_key_names_listed_1();
    lemma_key_names_listed_2();
    lemma_key_names_listed_3();
    lemma_key_names_listed_4();
    reveal(key_named);
}

/// The Unicode lower case of a string (what `str::to_lowercase` returns).
pub uninterp spec fn unicode_lowercase(s: Seq<char>) -> Seq<char>;

/// The ASCII lower case of a character.
pub open spec fn ascii_lower(c: char) -> char {
    if 'A' <= c <= 'Z' {
        ((c as u32) + 32) as char
    } else {
        c
    }
}

/// `s` with `A`..`Z` replaced by `a`..`z`.
pub open spec fn ascii_lowered(s: Seq<char>) -> Seq<char> {
    s.map_values(|c: char| ascii_lower(c))
}

/// Whether every character of `s` is ASCII.
pub open spec fn all_ascii(s: Seq<char>) -> bool {
    forall|i: int| 0 <= i < s.len() ==> (s[i] as u32) < 128
}

/// `str::to_lowercase`: the lower-case form of `s` as Unicode defines it.
/// Claimed: the result is a function of `s` alone, and for an ASCII string
/// it is the string with `A`..`Z` replaced by `a`..`z`. Nothing more is
/// claimed of other characters.
#[verifier::external_body]
fn to_lowercase(s: &str) -> (r: String)
    ensures
        r@ == unicode_lowercase(s@),
        all_ascii(s@) ==> r@ == s@.map_values(|c: char| ascii_lower(c)),
{
    s.to_lowercase()
}

impl KeyBinding {
    /// Reads a key name (case-insensitively): see `key_from_name`.
    pub fn parse_key(key: &str) -> (r: Result<KeyCode, KeyBindingError>)
        ensures
            match key_named(unicode_lowercase(key@)) {
                Some(k) => r == Ok::<KeyCode, KeyBindingError>(k),
                None => r matches Err(e) && e@ == BindingFault::InvalidKey(unicode_lowercase(key@)),
            },
            all_ascii(key@) ==> match key_named(ascii_lowered(key@)) {
                Some(k) => r == Ok::<KeyCode, KeyBindingError>(k),
                None => r matches Err(e) && e@ == BindingFault::InvalidKey(ascii_lowered(key@)),
            },
    {
        let lowered = to_lowercase(key);
        let name = chars_of(lowered.as_str());
        match key_from_name(&name) {
            Some(k) => Ok(k),
            None => Err(KeyBindingError::InvalidKey(lowered)),
        }
    }
}

/// The modifier that a (trimmed) name stands for.
pub open spec fn modifier_named(name: Seq<char>) -> Option<Modifiers> {
    if name == seq!['c', 't', 'r', 'l'] {
        Some(Modifiers { control: true, ..Modifiers::none() })
    } else if name == seq!['a', 'l', 't'] {
        Some(Modifiers { alt: true, ..Modifiers::none() })
    } else if name == seq!['s', 'h', 'i', 'f', 't'] {
        Some(Modifiers { shift: true, ..Modifiers::none() })
    } else if name == seq!['m', 'o', 'd'] {
        Some(Modifiers { logo: true, ..Modifiers::none() })
    } else {
        None
    }
}

/// Reads one modifier name given as characters (see `KeyBinding::parse_mod`).
fn modifier_from_chars(m: &Vec<char>) -> (r: Result<Modifiers, KeyBindingError>)
    ensures
        match modifier_named(trimmed(m@)) {
            Some(x) => r == Ok::<Modifiers, KeyBindingError>(x),
            None => r matches Err(e) && e@ == BindingFault::InvalidModifier(trimmed(m@)),
        },
{
    let t = trim_chars(m);
    if is_word(&t, &['c', 't', 'r', 'l']) {
        Ok(Modifiers { control: true, ..Modifiers::empty() })
    } else if is_word(&t, &['a', 'l', 't']) {
        Ok(Modifiers { alt: true, ..Modifiers::empty() })
    } else if is_word(&t, &['s', 'h', 'i', 'f', 't']) {
        Ok(Modifiers { shift: true, ..Modifiers::empty() })
    } else if is_word(&t, &['m', 'o', 'd']) {
        Ok(Modifiers { logo: true, ..Modifiers::empty() })
    } else {
        Err(KeyBindingError::InvalidModifier(string_of(&t)))
    }
}

impl KeyBinding {
    /// Reads one modifier name (`ctrl`, `alt`, `shift` or `mod`), ignoring
    /// surrounding white space.
    pub fn parse_mod(m: &str) -> (r: Result<Modifiers, KeyBindingError>)
        ensures
            match modifier_named(trimmed(m@)) {
                Some(x) => r == Ok::<Modifiers, KeyBindingError>(x),
                None => r matches Err(e) && e@ == BindingFault::InvalidModifier(trimmed(m@)),
            },
    {
        let chars = chars_of(m);
        modifier_from_chars(&chars)
    }
}

/// The index of the first `c` in `s`, if any.
pub open spec fn position_of(s: Seq<char>, c: char) -> Option<int>
    decreases s.len(),
{
    if s.len() == 0 {
        None
    } else if s[0] == c {
        Some(0)
    } else {
        match position_of(s.drop_first(), c) {
            Some(i) => Some(i + 1),
            None => None,
        }
    }
}

pub proof fn lemma_position_of(s: Seq<char>, c: char)
    ensures
        match position_of(s, c) {
            Some(i) => 0 <= i < s.len() && s[i] == c && forall|j: int| 0 <= j < i ==> s[j] != c,
            None => forall|j: int| 0 <= j < s.len() ==> s[j] != c,
        },
    decreases s.len(),
{
    if s.len() > 0 && s[0] != c {
        lemma_position_of(s.drop_first(), c);
        match position_of(s.drop_first(), c) {
            Some(i) => {
                assert forall|j: int| 0 <= j < i + 1 implies s[j] != c by {
                    if j > 0 {
                        assert(s[j] == s.drop_first()[j - 1]);
                    }
                }
            },
            None => {
                assert forall|j: int| 0 <= j < s.len() implies s[j] != c by {
                    if j > 0 {
                        assert(s[j] == s.drop_first()[j - 1]);
                    }
                }
            },
        }
    }
}

proof fn lemma_position_of_unique(s: Seq<char>, c: char, i: int)
    requires
        0 <= i < s.len(),
        s[i] == c,
        forall|j: int| 0 <= j < i ==> s[j] != c,
    ensures
        position_of(s, c) == Some(i),
    decreases s.len(),
{
    if i > 0 {
        assert forall|j: int| 0 <= j < i - 1 implies s.drop_first()[j] != c by {
            assert(s.drop_first()[j] == s[j + 1]);
        }
        lemma_position_of_unique(s.drop_first(), c, i - 1);
    }
}

/// The index of the first `c` in `v`, if any.
pub fn position(v: &Vec<char>, c: char) -> (r: Option<usize>)
    ensures
        match position_of(v@, c) {
            Some(i) => r == Some(i as usize),
            None => r is None,
        },
{
    proof {
        lemma_position_of(v@, c);
    }
    let mut i: usize = 0;
    while i < v.len()
        invariant
            i <= v.len(),
            forall|j: int| 0 <= j < i ==> v@[j] != c,
        decreases v.len() - i,
    {
        if v[i] == c {
            proof {
                lemma_position_of_unique(v@, c, i as int);
            }
            return Some(i);
        }
        i = i + 1;
    }
    None
}

/// The characters `v[from..to]`.
pub fn slice_chars(v: &Vec<char>, from: usize, to: usize) -> (r: Vec<char>)
    requires
        from <= to <= v@.len(),
    ensures
        r@ == v@.subrange(from as int, to as int),
{
    let mut out: Vec<char> = Vec::new();
    let mut i: usize = from;
    while i < to
        invariant
            from <= i <= to,
            to <= v@.len(),
            out@ == v@.subrange(from as int, i as int),
        decreases to - i,
    {
        out.push(v[i]);
        i = i + 1;
        assert(out@ =~= v@.subrange(from as int, i as int));
    }
    out
}

/// `s` cut at each `sep` (the pieces, without the separators).
pub open spec fn split_on(s: Seq<char>, sep: char) -> Seq<Seq<char>>
    decreases s.len(),
{
    match position_of(s, sep) {
        None => seq![s],
        Some(i) => {
            if 0 <= i < s.len() {
                seq![s.take(i)] + split_on(s.skip(i + 1), sep)
            } else {
                seq![s]
            }
        },
    }
}

/// The number of bytes that `c` takes in UTF-8.
pub open spec fn utf8_width(c: char) -> nat {
    if (c as u32) < 0x80 {
        1
    } else if (c as u32) < 0x800 {
        2
    } else if (c as u32) < 0x10000 {
        3
    } else {
        4
    }
}

/// The number of bytes that the first `j` characters of `s` take in UTF-8.
pub open spec fn utf8_prefix_len(s: Seq<char>, j: int) -> nat
    decreases j,
{
    if j <= 0 || j > s.len() {
        0
    } else {
        utf8_prefix_len(s, j - 1) + utf8_width(s[j - 1])
    }
}

/// The index of the character that starts at byte `b` of the UTF-8 form of
/// `s`, searching from character `j` on; `None` when byte `b` falls inside a
/// character or past the end.
pub open spec fn boundary_from(s: Seq<char>, b: int, j: int) -> Option<int>
    decreases s.len() - j,
{
    if j < 0 || j > s.len() {
        None
    } else if utf8_prefix_len(s, j) == b {
        Some(j)
    } else if utf8_prefix_len(s, j) > b || j == s.len() {
        None
    } else {
        boundary_from(s, b, j + 1)
    }
}

/// The index of the character that starts at byte `b` of the UTF-8 form of
/// `s` (`s.len()` for its end); `None` when `b` falls inside a character.
pub open spec fn char_at_byte(s: Seq<char>, b: int) -> Option<int> {
    boundary_from(s, b, 0)
}

/// The modifiers named in the list `m` (separated by `+`), added to `acc`,
/// read left to right as the binding reader does: each `+` is found by its
/// position among the characters, and that position is used as a byte
/// offset to cut the list. `Err` holds the first name (trimmed) that names
/// no modifier; `None` when a cut would fall inside a character.
pub open spec fn mods_from(m: Seq<char>, acc: Modifiers) -> Option<Result<Modifiers, Seq<char>>>
    decreases m.len(),
{
    match position_of(m, '+') {
        None => match modifier_named(trimmed(m)) {
            Some(x) => Some(Ok(acc.union(x))),
            None => Some(Err(trimmed(m))),
        },
        Some(next) => match char_at_byte(m, next) {
            None => None,
            Some(j) => match modifier_named(trimmed(m.take(j))) {
                None => Some(Err(trimmed(m.take(j)))),
                Some(x) => match char_at_byte(m, next + 1) {
                    Some(k) => if 0 < k <= m.len() {
                        mods_from(m.skip(k), acc.union(x))
                    } else {
                        None
                    },
                    None => None,
                },
            },
        },
    }
}

/// The modifier part of a binding: when it starts with `<`, the modifiers
/// named (separated by `+`) before the first `>`, and the rest of the
/// binding from that `>` on; otherwise no modifiers and the whole binding.
/// The position of `>` among the characters is used as a byte offset to cut
/// the binding; `None` when a cut would fall inside a character.
pub open spec fn binding_parts(b: Seq<char>) -> Option<Result<(Seq<char>, Modifiers), BindingFault>> {
    if b.len() == 0 || b[0] != '<' {
        Some(Ok((b, Modifiers::none())))
    } else {
        let t = b.drop_first();
        match position_of(t, '>') {
            None => Some(Err(BindingFault::UnclosedModifiers)),
            Some(end) => match char_at_byte(t, end) {
                None => None,
                Some(j) => {
                    let m = t.take(j);
                    let mods = if m.len() == 0 {
                        Some(Ok(Modifiers::none()))
                    } else {
                        mods_from(m, Modifiers::none())
                    };
                    match mods {
                        None => None,
                        Some(Err(x)) => Some(Err(BindingFault::InvalidModifier(x))),
                        Some(Ok(ms)) => Some(Ok((t.skip(j), ms))),
                    }
                },
            },
        }
    }
}

/// The key part of a binding, given the rest that `binding_parts` left and
/// the modifiers it found: with modifiers and a `-`, what follows the `-`
/// (its position among the characters, plus one, taken as a byte offset);
/// otherwise all of it. `None` when that cut would fall inside a character.
pub open spec fn binding_key(rest: Seq<char>, mods: Modifiers) -> Option<Seq<char>> {
    if mods != Modifiers::none() && position_of(rest, '-') is Some {
        match char_at_byte(rest, position_of(rest, '-')->0 + 1) {
            Some(k) => Some(rest.skip(k)),
            None => None,
        }
    } else {
        Some(rest)
    }
}

/// Whether reading `b` as a binding never cuts a character in two.
pub open spec fn binding_readable(b: Seq<char>) -> bool {
    match binding_parts(b) {
        None => false,
        Some(Err(_)) => true,
        Some(Ok((rest, mods))) => binding_key(rest, mods) is Some,
    }
}

/// `s` cut at each `sep`.
pub(crate) fn split_chars(s: &Vec<char>, sep: char) -> (r: Vec<Vec<char>>)
    ensures
        r@.map_values(|p: Vec<char>| p@) == split_on(s@, sep),
{
    let mut out: Vec<Vec<char>> = Vec::new();
    let mut rest: Vec<char> = slice_chars(s, 0, s.len());
    assert(rest@ =~= s@);
    loop
        invariant
            out@.map_values(|p: Vec<char>| p@) + split_on(rest@, sep) == split_on(s@, sep),
        decreases rest@.len(),
    {
        proof {
            lemma_position_of(rest@, sep);
        }
        match position(&rest, sep) {
            None => {
                let ghost before = out@.map_values(|p: Vec<char>| p@);
                let ghost last = rest@;
                out.push(rest);
                assert(out@.map_values(|p: Vec<char>| p@) =~= before.push(last));
                assert(before + seq![last] =~= before.push(last));
                return out;
            },
            Some(i) => {
                let n = rest.len();
                assert(i < n);
                let piece = slice_chars(&rest, 0, i);
                let next = slice_chars(&rest, i + 1, n);
                let ghost before = out@.map_values(|p: Vec<char>| p@);
                let ghost rv = rest@;
                assert(piece@ =~= rv.take(i as int));
                assert(next@ =~= rv.skip(i + 1));
                out.push(piece);
                assert(out@.map_values(|p: Vec<char>| p@) =~= before.push(rv.take(i as int)));
                assert(before.push(rv.take(i as int)) + split_on(next@, sep) =~= before + (seq![
                    rv.take(i as int),
                ] + split_on(next@, sep)));
                rest = next;
            },
        }
    }
}

/// The number of bytes that `c` takes in UTF-8.
fn utf8_width_of(c: char) -> (r: usize)
    ensures
        r == utf8_width(c),
{
    let v = c as u32;
    if v < 0x80 {
        1
    } else if v < 0x800 {
        2
    } else if v < 0x10000 {
        3
    } else {
        4
    }
}

/// The index of the character that starts at byte `b` of the UTF-8 form of
/// `s` (see `char_at_byte`).
fn char_index_at_byte(s: &Vec<char>, b: usize) -> (r: Option<usize>)
    ensures
        match r {
            Some(j) => char_at_byte(s@, b as int) == Some(j as int) && j <= s@.len(),
            None => char_at_byte(s@, b as int) is None,
        },
{
    let mut j: usize = 0;
    let mut remaining: usize = b;
    loop
        invariant
            j <= s@.len(),
            utf8_prefix_len(s@, j as int) + remaining == b,
            boundary_from(s@, b as int, 0) == boundary_from(s@, b as int, j as int),
        decreases s@.len() - j,
    {
        if remaining == 0 {
            return Some(j);
        }
        if j == s.len() {
            return None;
        }
        let w = utf8_width_of(s[j]);
        assert(utf8_prefix_len(s@, j + 1) == utf8_prefix_len(s@, j as int) + w);
        if w > remaining {
            assert(boundary_from(s@, b as int, j + 1) is None);
            return None;
        }
        remaining = remaining - w;
        j = j + 1;
    }
    None
}

/// In ASCII text, every character takes one byte.
proof fn lemma_ascii_prefix(s: Seq<char>, j: int)
    requires
        all_ascii(s),
        0 <= j <= s.len(),
    ensures
        utf8_prefix_len(s, j) == j,
    decreases j,
{
    if j > 0 {
        lemma_ascii_prefix(s, j - 1);
        assert((s[j - 1] as u32) < 128);
    }
}

/// In ASCII text, byte `b` starts character `b`.
proof fn lemma_ascii_cut(s: Seq<char>, b: int)
    requires
        all_ascii(s),
        0 <= b <= s.len(),
    ensures
        char_at_byte(s, b) == Some(b),
{
    lemma_ascii_cut_from(s, b, 0);
}

proof fn lemma_ascii_cut_from(s: Seq<char>, b: int, j: int)
    requires
        all_ascii(s),
        0 <= j <= b <= s.len(),
    ensures
        boundary_from(s, b, j) == Some(b),
    decreases b - j,
{
    lemma_ascii_prefix(s, j);
    if j < b {
        lemma_ascii_cut_from(s, b, j + 1);
    }
}

/// A part of an ASCII sequence is ASCII.
proof fn lemma_ascii_skip(s: Seq<char>, k: int)
    requires
        all_ascii(s),
        0 <= k <= s.len(),
    ensures
        all_ascii(s.skip(k)),
        all_ascii(s.take(k)),
{
    assert forall|i: int| 0 <= i < s.skip(k).len() implies (s.skip(k)[i] as u32) < 128 by {
        assert(s.skip(k)[i] == s[i + k]);
    }
    assert forall|i: int| 0 <= i < s.take(k).len() implies (s.take(k)[i] as u32) < 128 by {
        assert(s.take(k)[i] == s[i]);
    }
}

/// An ASCII modifier list is read without a cut inside a character.
proof fn lemma_ascii_mods(m: Seq<char>, acc: Modifiers)
    requires
        all_ascii(m),
    ensures
        mods_from(m, acc) is Some,
    decreases m.len(),
{
    lemma_position_of(m, '+');
    if let Some(next) = position_of(m, '+') {
        lemma_ascii_cut(m, next);
        lemma_ascii_cut(m, next + 1);
        lemma_ascii_skip(m, next + 1);
        if let Some(x) = modifier_named(trimmed(m.take(next))) {
            lemma_ascii_mods(m.skip(next + 1), acc.union(x));
        }
    }
}

/// Every ASCII binding can be read: no cut falls inside a character, and
/// its key part is ASCII too.
pub proof fn law_ascii_bindings_readable(b: Seq<char>)
    requires
        all_ascii(b),
    ensures
        binding_readable(b),
        binding_parts(b) matches Some(Ok((rest, mods))) ==> all_ascii(binding_key(rest, mods)->0),
{
    if b.len() > 0 && b[0] == '<' {
        let t = b.drop_first();
        lemma_ascii_skip(b, 1);
        assert(t =~= b.skip(1));
        lemma_position_of(t, '>');
        if let Some(end) = position_of(t, '>') {
            lemma_ascii_cut(t, end);
            lemma_ascii_skip(t, end);
            if t.take(end).len() > 0 {
                lemma_ascii_mods(t.take(end), Modifiers::none());
            }
            if let Some(Ok((rest, mods))) = binding_parts(b) {
                assert(rest == t.skip(end));
                lemma_position_of(rest, '-');
                if mods != Modifiers::none() && position_of(rest, '-') is Some {
                    let d = position_of(rest, '-')->0;
                    lemma_ascii_cut(rest, d + 1);
                    lemma_ascii_skip(rest, d + 1);
                }
            }
        }
    } else {
        lemma_position_of(b, '-');
        if let Some(d) = position_of(b, '-') {
            lemma_ascii_cut(b, d + 1);
            lemma_ascii_skip(b, d + 1);
        }
    }
}

/// Reads the modifier part of a binding (see `binding_parts`).
fn parse_mods(binding: &Vec<char>) -> (r: Result<(Vec<char>, Modifiers), KeyBindingError>)
    requires
        binding_parts(binding@) is Some,
    ensures
        match binding_parts(binding@)->0 {
            Ok((rest, mods)) => r matches Ok((v, m)) && v@ == rest && m == mods,
            Err(f) => r matches Err(e) && e@ == f,
        },
{
    if binding.len() == 0 || binding[0] != '<' {
        return Ok((slice_chars(binding, 0, binding.len()), Modifiers::empty()));
    }
    let t = slice_chars(binding, 1, binding.len());
    assert(t@ =~= binding@.drop_first());
    let end = match position(&t, '>') {
        Some(end) => end,
        None => return Err(KeyBindingError::UnclosedModifiers),
    };
    proof {
        lemma_position_of(t@, '>');
        assert(position_of(t@, '>') == Some(end as int));
    }
    let j = match char_index_at_byte(&t, end) {
        Some(j) => j,
        None => {
            assert(false);
            return Err(KeyBindingError::UnclosedModifiers);
        },
    };
    let modifiers = slice_chars(&t, 0, j);
    assert(modifiers@ =~= t@.take(j as int));
    let ghost m0 = modifiers@;
    let mut mods = Modifiers::empty();
    if modifiers.len() > 0 {
        let mut cur = modifiers;
        loop
            invariant
                binding@.len() > 0 && binding@[0] == '<',
                t@ == binding@.drop_first(),
                position_of(t@, '>') == Some(end as int),
                char_at_byte(t@, end as int) == Some(j as int),
                j <= t@.len(),
                m0 == t@.take(j as int),
                m0.len() > 0,
                mods_from(m0, Modifiers::none()) is Some,
                mods_from(cur@, mods) == mods_from(m0, Modifiers::none()),
            ensures
                mods_from(m0, Modifiers::none()) == Some(Ok::<Modifiers, Seq<char>>(mods)),
            decreases cur@.len(),
        {
            proof {
                lemma_position_of(cur@, '+');
            }
            match position(&cur, '+') {
                None => {
                    match modifier_from_chars(&cur) {
                        Ok(x) => {
                            mods.extend(x);
                            break;
                        },
                        Err(e) => {
                            return Err(e);
                        },
                    }
                },
                Some(next) => {
                    let n = cur.len();
                    assert(position_of(cur@, '+') == Some(next as int));
                    let cut = match char_index_at_byte(&cur, next) {
                        Some(c) => c,
                        None => {
                            assert(false);
                            return Err(KeyBindingError::UnclosedModifiers);
                        },
                    };
                    let piece = slice_chars(&cur, 0, cut);
                    assert(piece@ =~= cur@.take(cut as int));
                    let x = match modifier_from_chars(&piece) {
                        Ok(x) => x,
                        Err(e) => {
                            return Err(e);
                        },
                    };
                    let k = match char_index_at_byte(&cur, next + 1) {
                        Some(k) => k,
                        None => {
                            assert(false);
                            return Err(KeyBindingError::UnclosedModifiers);
                        },
                    };
                    if k == 0 {
                        assert(false);
                        return Err(KeyBindingError::UnclosedModifiers);
                    }
                    mods.extend(x);
                    let rest = slice_chars(&cur, k, n);
                    assert(rest@ =~= cur@.skip(k as int));
                    cur = rest;
                },
            }
        }
    }
    let rest = slice_chars(&t, j, t.len());
    assert(rest@ =~= t@.skip(j as int));
    Ok((rest, mods))
}

impl KeyBinding {
    /// Reads a key binding such as `<ctrl>-p`, `<ctrl+shift>-f` or `f5`:
    /// optional modifiers between `<` and `>` (separated by `+`), then, when
    /// there are modifiers, a `-`, then a key name (see `parse_key`). Each
    /// delimiter is found by its position among the characters, and that
    /// position is used as a byte offset to cut the text, so text beyond
    /// ASCII before a delimiter moves the cut (see `binding_parts` and
    /// `binding_key`); a binding on which a cut would fall inside a
    /// character is not read.
    pub fn parse(binding: &str) -> (r: Result<KeyBinding, KeyBindingError>)
        requires
            binding_readable(binding@),
        ensures
            match binding_parts(binding@)->0 {
                Err(f) => r matches Err(e) && e@ == f,
                Ok((rest, mods)) => {
                    let lowered = unicode_lowercase(binding_key(rest, mods)->0);
                    match key_named(lowered) {
                        Some(k) => r == Ok::<KeyBinding, KeyBindingError>(KeyBinding { mods, key: k }),
                        None => r matches Err(e) && e@ == BindingFault::InvalidKey(lowered),
                    }
                },
            },
            all_ascii(binding@) ==> match binding_parts(binding@)->0 {
                Err(f) => r matches Err(e) && e@ == f,
                Ok((rest, mods)) => {
                    let lowered = ascii_lowered(binding_key(rest, mods)->0);
                    match key_named(lowered) {
                        Some(k) => r == Ok::<KeyBinding, KeyBindingError>(KeyBinding { mods, key: k }),
                        None => r matches Err(e) && e@ == BindingFault::InvalidKey(lowered),
                    }
                },
            },
    {
        let chars = chars_of(binding);
        let (rest, mods) = parse_mods(&chars)?;
        let ghost rest_v = rest@;
        proof {
            lemma_position_of(rest@, '-');
        }
        let key = if !mods.is_empty() {
            match position(&rest, '-') {
                Some(delim) => {
                    let n = rest.len();
                    let k = match char_index_at_byte(&rest, delim + 1) {
                        Some(k) => k,
                        None => {
                            assert(false);
                            return Err(KeyBindingError::UnclosedModifiers);
                        },
                    };
                    let key = slice_chars(&rest, k, n);
                    assert(key@ =~= rest@.skip(k as int));
                    key
                },
                None => rest,
            }
        } else {
            rest
        };
        assert(key@ == binding_key(rest_v, mods)->0);
        proof {
            if all_ascii(binding@) {
                law_ascii_bindings_readable(binding@);
            }
        }
        let key_text = string_of(&key);
        let code = Self::parse_key(key_text.as_str())?;
        Ok(KeyBinding { mods, key: code })
    }
}

/// Key names are read without regard to case: an ASCII key name reads the
/// same as its lower-case form, which is ASCII itself and is left as it is
/// by lowering it again.
pub proof fn law_parse_key_ignores_case(key: Seq<char>)
    requires
        all_ascii(key),
    ensures
        all_ascii(ascii_lowered(key)),
        ascii_lowered(ascii_lowered(key)) == ascii_lowered(key),
        key_named(ascii_lowered(ascii_lowered(key))) == key_named(ascii_lowered(key)),
{
    let l = ascii_lowered(key);
    assert forall|i: int| 0 <= i < l.len() implies (l[i] as u32) < 128 by {
        assert((key[i] as u32) < 128);
    }
    assert(ascii_lowered(l) =~= l);
}

/// The byte that Ctrl together with a letter key sends: 1 for `a` up to 26
/// for `z`; `None` for any other key.
pub fn control_key_byte(code: KeyCode) -> (r: Option<u8>)
    ensures
        r == control_byte(code),
{
    match code {
        KeyCode::KeyA => Some(1),
        KeyCode::KeyB => Some(2),
        KeyCode::KeyC => Some(3),
        KeyCode::KeyD => Some(4),
        KeyCode::KeyE => Some(5),
        KeyCode::KeyF => Some(6),
        KeyCode::KeyG => Some(7),
        KeyCode::KeyH => Some(8),
        KeyCode::KeyI => Some(9),
        KeyCode::KeyJ => Some(10),
        KeyCode::KeyK => Some(11),
        KeyCode::KeyL => Some(12),
        KeyCode::KeyM => Some(13),
        KeyCode::KeyN => Some(14),
        KeyCode::KeyO => Some(15),
        KeyCode::KeyP => Some(16),
        KeyCode::KeyQ => Some(17),
        KeyCode::KeyR => Some(18),
        KeyCode::KeyS => Some(19),
        KeyCode::KeyT => Some(20),
        KeyCode::KeyU => Some(21),
        KeyCode::KeyV => Some(22),
        KeyCode::KeyW => Some(23),
        KeyCode::KeyX => Some(24),
        KeyCode::KeyY => Some(25),
        KeyCode::KeyZ => Some(26),
        _ => None,
    }
}

/// The byte that Ctrl together with a letter key sends.
pub open spec fn control_byte(code: KeyCode) -> Option<u8> {
    match code {
        KeyCode::KeyA => Some(1),
        KeyCode::KeyB => Some(2),
        KeyCode::KeyC => Some(3),
        KeyCode::KeyD => Some(4),
        KeyCode::KeyE => Some(5),
        KeyCode::KeyF => Some(6),
        KeyCode::KeyG => Some(7),
        KeyCode::KeyH => Some(8),
        KeyCode::KeyI => Some(9),
        KeyCode::KeyJ => Some(10),
        KeyCode::KeyK => Some(11),
        KeyCode::KeyL => Some(12),
        KeyCode::KeyM => Some(13),
        KeyCode::KeyN => Some(14),
        KeyCode::KeyO => Some(15),
        KeyCode::KeyP => Some(16),
        KeyCode::KeyQ => Some(17),
        KeyCode::KeyR => Some(18),
        KeyCode::KeyS => Some(19),
        KeyCode::KeyT => Some(20),
        KeyCode::KeyU => Some(21),
        KeyCode::KeyV => Some(22),
        KeyCode::KeyW => Some(23),
        KeyCode::KeyX => Some(24),
        KeyCode::KeyY => Some(25),
        KeyCode::KeyZ => Some(26),
        _ => None,
    }
}

/// The tab (0-based) that a digit key `1`..`9` selects.
pub open spec fn digit_tab(code: KeyCode) -> Option<usize> {
    match code {
        KeyCode::Digit1 => Some(0),
        KeyCode::Digit2 => Some(1),
        KeyCode::Digit3 => Some(2),
        KeyCode::Digit4 => Some(3),
        KeyCode::Digit5 => Some(4),
        KeyCode::Digit6 => Some(5),
        KeyCode::Digit7 => Some(6),
        KeyCode::Digit8 => Some(7),
        KeyCode::Digit9 => Some(8),
        _ => None,
    }
}

/// The tab (0-based) that a digit key `1`..`9` selects; `None` for any other
/// key.
pub fn tab_digit_index(code: KeyCode) -> (r: Option<usize>)
    ensures
        r == digit_tab(code),
{
    match code {
        KeyCode::Digit1 => Some(0),
        KeyCode::Digit2 => Some(1),
        KeyCode::Digit3 => Some(2),
        KeyCode::Digit4 => Some(3),
        KeyCode::Digit5 => Some(4),
        KeyCode::Digit6 => Some(5),
        KeyCode::Digit7 => Some(6),
        KeyCode::Digit8 => Some(7),
        KeyCode::Digit9 => Some(8),
        _ => None,
    }
}

/// The xterm modifier parameter of a key: 1, plus 1 for Shift, 2 for Alt
/// and 4 for Ctrl; `None` when it would be 1 (no modifier among these).
pub open spec fn csi_param(mods: Modifiers) -> Option<u8> {
    let v = 1 + (if mods.shift {
        1int
    } else {
        0
    }) + (if mods.alt {
        2int
    } else {
        0
    }) + (if mods.control {
        4int
    } else {
        0
    });
    if v == 1 {
        None
    } else {
        Some(v as u8)
    }
}

/// The xterm modifier parameter of the held modifiers (see `csi_param`).
pub fn is_csi(mods: Modifiers) -> (r: Option<u8>)
    ensures
        r == csi_param(mods),
{
    let mut value: u8 = 1;
    if mods.shift {
        value += 1;
    }
    if mods.alt {
        value += 2;
    }
    if mods.control {
        value += 4;
    }
    if value == 1 {
        None
    } else {
        Some(value)
    }
}

} // verus!
