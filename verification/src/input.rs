use vstd::prelude::*;

use crate::keys::{control_byte, control_key_byte, KeyCode, Modifiers};

verus! {

/// The decimal digits of `n` as ASCII bytes, most significant first.
pub open spec fn decimal_ascii(n: nat) -> Seq<u8>
    decreases n,
{
    if n < 10 {
        seq![(48 + n) as u8]
    } else {
        decimal_ascii(n / 10).push((48 + n % 10) as u8)
    }
}

/// Appends the decimal digits of `n` (ASCII) to `out`.
pub fn push_decimal_ascii(out: &mut Vec<u8>, n: u64)
    ensures
        final(out)@ == old(out)@ + decimal_ascii(n as nat),
    decreases n,
{
    if n < 10 {
        out.push((48 + n) as u8);
        assert(old(out)@.push((48 + n) as u8) =~= old(out)@ + seq![(48 + n) as u8]);
    } else {
        push_decimal_ascii(out, n / 10);
        out.push((48 + n % 10) as u8);
        assert(old(out)@ + decimal_ascii((n / 10) as nat) + seq![(48 + n % 10) as u8]
            =~= old(out)@ + decimal_ascii(n as nat));
    }
}

/// The UTF-8 encoding of the character with code `b` (`b as char`).
pub open spec fn latin1_utf8(b: u8) -> Seq<u8> {
    if b < 128 {
        seq![b]
    } else {
        seq![(0xC0 + b / 64) as u8, (0x80 + b % 64) as u8]
    }
}

/// Appends the UTF-8 encoding of the character with code `b` to `out`.
fn push_latin1(out: &mut Vec<u8>, b: u8)
    ensures
        final(out)@ == old(out)@ + latin1_utf8(b),
{
    if b < 128 {
        out.push(b);
        assert(old(out)@.push(b) =~= old(out)@ + seq![b]);
    } else {
        out.push(0xC0 + b / 64);
        out.push(0x80 + b % 64);
        assert(old(out)@.push((0xC0 + b / 64) as u8).push((0x80 + b % 64) as u8) =~= old(out)@
            + latin1_utf8(b));
    }
}

/// A CSI key sequence: `ESC [ 1 ; m <byte>` with a modifier parameter `m`,
/// `ESC [ <byte>` without.
pub open spec fn csi_key(csi_param: Option<u8>, byte: u8) -> Seq<u8> {
    match csi_param {
        Some(m) => seq![0x1bu8, 0x5bu8, 0x31u8, 0x3bu8] + decimal_ascii(m as nat) + latin1_utf8(
            byte,
        ),
        None => seq![0x1bu8, 0x5bu8, byte],
    }
}

/// A CSI "tilde" key sequence: `ESC [ n ; m ~` with a modifier parameter
/// `m`, `ESC [ n ~` without.
pub open spec fn csi_tilde(csi_param: Option<u8>, number: u8) -> Seq<u8> {
    match csi_param {
        Some(m) => seq![0x1bu8, 0x5bu8] + decimal_ascii(number as nat) + seq![0x3bu8]
            + decimal_ascii(m as nat) + seq![0x7eu8],
        None => seq![0x1bu8, 0x5bu8] + decimal_ascii(number as nat) + seq![0x7eu8],
    }
}

/// A cursor key: `ESC O <byte>` in application cursor mode without
/// modifiers, the CSI key sequence otherwise.
pub open spec fn cursor_key(csi_param: Option<u8>, byte: u8, app_cursor: bool) -> Seq<u8> {
    if app_cursor && csi_param is None {
        seq![0x1bu8, 0x4fu8, byte]
    } else {
        csi_key(csi_param, byte)
    }
}

/// The bytes of a CSI key sequence (see `csi_key`).
pub fn csi_key_bytes(csi_param: Option<u8>, byte: u8) -> (r: Vec<u8>)
    ensures
        r@ == csi_key(csi_param, byte),
{
    let mut out: Vec<u8> = Vec::new();
    match csi_param {
        Some(m) => {
            out.push(0x1b);
            out.push(0x5b);
            out.push(0x31);
            out.push(0x3b);
            push_decimal_ascii(&mut out, m as u64);
            push_latin1(&mut out, byte);
            assert(out@ =~= csi_key(csi_param, byte));
        },
        None => {
            out.push(0x1b);
            out.push(0x5b);
            out.push(byte);
            assert(out@ =~= csi_key(csi_param, byte));
        },
    }
    out
}

/// The bytes of a CSI "tilde" key sequence (see `csi_tilde`).
pub fn csi_tilde_bytes(csi_param: Option<u8>, number: u8) -> (r: Vec<u8>)
    ensures
        r@ == csi_tilde(csi_param, number),
{
    let mut out: Vec<u8> = Vec::new();
    out.push(0x1b);
    out.push(0x5b);
    push_decimal_ascii(&mut out, number as u64);
    match csi_param {
        Some(m) => {
            out.push(0x3b);
            push_decimal_ascii(&mut out, m as u64);
        },
        None => {},
    }
    out.push(0x7e);
    assert(out@ =~= csi_tilde(csi_param, number));
    out
}

/// The bytes of a cursor key (see `cursor_key`).
pub fn cursor_key_bytes(csi_param: Option<u8>, byte: u8, app_cursor: bool) -> (r: Vec<u8>)
    ensures
        r@ == cursor_key(csi_param, byte, app_cursor),
{
    if app_cursor && csi_param.is_none() {
        let mut out: Vec<u8> = Vec::new();
        out.push(0x1b);
        out.push(0x4f);
        out.push(byte);
        assert(out@ =~= seq![0x1bu8, 0x4fu8, byte]);
        out
    } else {
        csi_key_bytes(csi_param, byte)
    }
}

/// The keys that send a sequence of their own, as the keyboard layout names
/// them; every other key is `Other`.
#[derive(Clone, Copy, Debug, PartialEq, Eq, Structural)]
pub enum NamedKey {
    Escape,
    Enter,
    Backspace,
    Tab,
    ArrowUp,
    ArrowDown,
    ArrowRight,
    ArrowLeft,
    Home,
    End,
    Insert,
    Delete,
    PageUp,
    PageDown,
    F1,
    F2,
    F3,
    F4,
    F5,
    F6,
    F7,
    F8,
    F9,
    F10,
    F11,
    F12,
    Other,
}

/// A key event: whether the key went down, the physical key (if known), the
/// logical key, and the text that it produces (if any).
pub struct KeyPress {
    pub pressed: bool,
    pub physical: Option<KeyCode>,
    pub named: NamedKey,
    pub text: Option<String>,
}

/// An F1..F4 key: `ESC [ 1 ; m <final>` with a modifier parameter `m`,
/// `ESC O <final>` without.
pub open spec fn function_key(csi_param: Option<u8>, final_byte: u8) -> Seq<u8> {
    match csi_param {
        Some(m) => seq![0x1bu8, 0x5bu8, 0x31u8, 0x3bu8] + decimal_ascii(m as nat) + seq![
            final_byte,
        ],
        None => seq![0x1bu8, 0x4fu8, final_byte],
    }
}

/// What a named key sends to the terminal program (`None` for `Other`, which
/// sends its text instead).
pub open spec fn named_key_bytes(
    key: NamedKey,
    mods: Modifiers,
    csi_param: Option<u8>,
    app_cursor: bool,
) -> Option<Seq<u8>> {
    match key {
        NamedKey::Escape => Some(seq![0x1bu8]),
        NamedKey::Enter => Some(seq![0x0du8]),
        NamedKey::Backspace => Some(seq![0x7fu8]),
        NamedKey::Tab => Some(
            if mods.shift {
                seq![0x1bu8, 0x5bu8, 0x5au8]
            } else {
                seq![0x09u8]
            },
        ),
        NamedKey::ArrowUp => Some(cursor_key(csi_param, 0x41, app_cursor)),
        NamedKey::ArrowDown => Some(cursor_key(csi_param, 0x42, app_cursor)),
        NamedKey::ArrowRight => Some(cursor_key(csi_param, 0x43, app_cursor)),
        NamedKey::ArrowLeft => Some(cursor_key(csi_param, 0x44, app_cursor)),
        NamedKey::Home => Some(csi_key(csi_param, 0x48)),
        NamedKey::End => Some(csi_key(csi_param, 0x46)),
        NamedKey::Insert => Some(csi_tilde(csi_param, 2)),
        NamedKey::Delete => Some(csi_tilde(csi_param, 3)),
        NamedKey::PageUp => Some(csi_tilde(csi_param, 5)),
        NamedKey::PageDown => Some(csi_tilde(csi_param, 6)),
        NamedKey::F1 => Some(function_key(csi_param, 0x50)),
        NamedKey::F2 => Some(function_key(csi_param, 0x51)),
        NamedKey::F3 => Some(function_key(csi_param, 0x52)),
        NamedKey::F4 => Some(function_key(csi_param, 0x53)),
        NamedKey::F5 => Some(csi_tilde(csi_param, 15)),
        NamedKey::F6 => Some(csi_tilde(csi_param, 17)),
        NamedKey::F7 => Some(csi_tilde(csi_param, 18)),
        NamedKey::F8 => Some(csi_tilde(csi_param, 19)),
        NamedKey::F9 => Some(csi_tilde(csi_param, 20)),
        NamedKey::F10 => Some(csi_tilde(csi_param, 21)),
        NamedKey::F11 => Some(csi_tilde(csi_param, 23)),
        NamedKey::F12 => Some(csi_tilde(csi_param, 24)),
        NamedKey::Other => None,
    }
}

/// What a key event sends to the terminal program: nothing for a release;
/// the control byte for Ctrl with a letter key; the sequence of a named key;
/// otherwise its text, after an ESC when Alt is held (nothing when it has no
/// text).
pub open spec fn key_press_output(
    event_pressed: bool,
    physical: Option<KeyCode>,
    named: NamedKey,
    text: Option<Seq<u8>>,
    mods: Modifiers,
    csi_param: Option<u8>,
    app_cursor: bool,
) -> Seq<u8> {
    if !event_pressed {
        Seq::empty()
    } else if mods.control && physical is Some && control_byte(physical->0) is Some {
        seq![control_byte(physical->0)->0]
    } else {
        match named_key_bytes(named, mods, csi_param, app_cursor) {
            Some(b) => b,
            None => match text {
                Some(t) => if mods.alt {
                    seq![0x1bu8] + t
                } else {
                    t
                },
                None => Seq::empty(),
            },
        }
    }
}

/// The bytes of an F1..F4 key (see `function_key`).
fn function_key_bytes(csi_param: Option<u8>, final_byte: u8) -> (r: Vec<u8>)
    ensures
        r@ == function_key(csi_param, final_byte),
{
    let mut out: Vec<u8> = Vec::new();
    out.push(0x1b);
    match csi_param {
        Some(m) => {
            out.push(0x5b);
            out.push(0x31);
            out.push(0x3b);
            push_decimal_ascii(&mut out, m as u64);
        },
        None => {
            out.push(0x4f);
        },
    }
    out.push(final_byte);
    assert(out@ =~= function_key(csi_param, final_byte));
    out
}

/// A vector of the given bytes.
fn bytes_of(b: &[u8]) -> (r: Vec<u8>)
    ensures
        r@ == b@,
{
    let mut out: Vec<u8> = Vec::new();
    let mut i: usize = 0;
    while i < b.len()
        invariant
            i <= b@.len(),
            out@ == b@.take(i as int),
        decreases b.len() - i,
    {
        out.push(b[i]);
        i = i + 1;
        assert(out@ =~= b@.take(i as int));
    }
    assert(b@.take(b@.len() as int) =~= b@);
    out
}

/// What a named key sends (see `named_key_bytes`).
pub fn named_key_output(key: NamedKey, mods: Modifiers, csi_param: Option<u8>, app_cursor: bool) -> (r:
    Option<Vec<u8>>)
    ensures
        match named_key_bytes(key, mods, csi_param, app_cursor) {
            Some(b) => r is Some && r->0@ == b,
            None => r is None,
        },
{
    let one = |b: u8| -> (r: Vec<u8>)
        ensures
            r@ == seq![b],
        {
            let mut v: Vec<u8> = Vec::new();
            v.push(b);
            assert(v@ =~= seq![b]);
            v
        };
    match key {
        NamedKey::Escape => Some(one(0x1b)),
        NamedKey::Enter => Some(one(0x0d)),
        NamedKey::Backspace => Some(one(0x7f)),
        NamedKey::Tab => {
            if mods.shift {
                let mut v: Vec<u8> = Vec::new();
                v.push(0x1b);
                v.push(0x5b);
                v.push(0x5a);
                assert(v@ =~= seq![0x1bu8, 0x5bu8, 0x5au8]);
                Some(v)
            } else {
                Some(one(0x09))
            }
        },
        NamedKey::ArrowUp => Some(cursor_key_bytes(csi_param, 0x41, app_cursor)),
        NamedKey::ArrowDown => Some(cursor_key_bytes(csi_param, 0x42, app_cursor)),
        NamedKey::ArrowRight => Some(cursor_key_bytes(csi_param, 0x43, app_cursor)),
        NamedKey::ArrowLeft => Some(cursor_key_bytes(csi_param, 0x44, app_cursor)),
        NamedKey::Home => Some(csi_key_bytes(csi_param, 0x48)),
        NamedKey::End => Some(csi_key_bytes(csi_param, 0x46)),
        NamedKey::Insert => Some(csi_tilde_bytes(csi_param, 2)),
        NamedKey::Delete => Some(csi_tilde_bytes(csi_param, 3)),
        NamedKey::PageUp => Some(csi_tilde_bytes(csi_param, 5)),
        NamedKey::PageDown => Some(csi_tilde_bytes(csi_param, 6)),
        NamedKey::F1 => Some(function_key_bytes(csi_param, 0x50)),
        NamedKey::F2 => Some(function_key_bytes(csi_param, 0x51)),
        NamedKey::F3 => Some(function_key_bytes(csi_param, 0x52)),
        NamedKey::F4 => Some(function_key_bytes(csi_param, 0x53)),
        NamedKey::F5 => Some(csi_tilde_bytes(csi_param, 15)),
        NamedKey::F6 => Some(csi_tilde_bytes(csi_param, 17)),
        NamedKey::F7 => Some(csi_tilde_bytes(csi_param, 18)),
        NamedKey::F8 => Some(csi_tilde_bytes(csi_param, 19)),
        NamedKey::F9 => Some(csi_tilde_bytes(csi_param, 20)),
        NamedKey::F10 => Some(csi_tilde_bytes(csi_param, 21)),
        NamedKey::F11 => Some(csi_tilde_bytes(csi_param, 23)),
        NamedKey::F12 => Some(csi_tilde_bytes(csi_param, 24)),
        NamedKey::Other => None,
    }
}

/// What a key event sends to the terminal program (see
/// `key_press_output`); `app_cursor` tells whether the program asked for
/// application cursor keys.
pub fn key_press_bytes(event: &KeyPress, mods: Modifiers, csi_param: Option<u8>, app_cursor: bool) -> (r:
    Vec<u8>)
    ensures
        r@ == key_press_output(
            event.pressed,
            event.physical,
            event.named,
            match event.text {
                Some(t) => Some(vstd::utf8::encode_utf8(t@)),
                None => None,
            },
            mods,
            csi_param,
            app_cursor,
        ),
{
    if !event.pressed {
        return Vec::new();
    }
    if mods.control {
        if let Some(code) = event.physical {
            if let Some(byte) = control_key_byte(code) {
                let mut v: Vec<u8> = Vec::new();
                v.push(byte);
                assert(v@ =~= seq![byte]);
                return v;
            }
        }
    }
    match named_key_output(event.named, mods, csi_param, app_cursor) {
        Some(b) => b,
        None => match &event.text {
            Some(text) => {
                let bytes = bytes_of(text.as_str().as_bytes());
                if mods.alt {
                    let mut v: Vec<u8> = Vec::new();
                    v.push(0x1b);
                    let mut i: usize = 0;
                    while i < bytes.len()
                        invariant
                            i <= bytes@.len(),
                            v@ == seq![0x1bu8] + bytes@.take(i as int),
                        decreases bytes.len() - i,
                    {
                        v.push(bytes[i]);
                        i = i + 1;
                        assert(v@ =~= seq![0x1bu8] + bytes@.take(i as int));
                    }
                    assert(bytes@.take(bytes@.len() as int) =~= bytes@);
                    v
                } else {
                    bytes
                }
            },
            None => Vec::new(),
        },
    }
}

/// An xterm "tilde" key: `ESC [`, the key's number written out as `digits`,
/// then `; m` for a modifier parameter `m`, then `~`.
pub open spec fn xterm_tilde(digits: Seq<u8>, csi_param: Option<u8>) -> Seq<u8> {
    match csi_param {
        Some(m) => seq![0x1bu8, 0x5bu8] + digits + seq![0x3bu8] + decimal_ascii(m as nat) + seq![0x7eu8],
        None => seq![0x1bu8, 0x5bu8] + digits + seq![0x7eu8],
    }
}

/// An xterm letter key: `ESC [ 1 ; m <letter>` with a modifier parameter
/// `m`; without one, `ESC O <letter>` when `ss3` holds and `ESC [ <letter>`
/// otherwise.
pub open spec fn xterm_letter(letter: u8, csi_param: Option<u8>, ss3: bool) -> Seq<u8> {
    match csi_param {
        Some(m) => seq![0x1bu8, 0x5bu8, 0x31u8, 0x3bu8] + decimal_ascii(m as nat) + seq![letter],
        None => if ss3 {
            seq![0x1bu8, 0x4fu8, letter]
        } else {
            seq![0x1bu8, 0x5bu8, letter]
        },
    }
}

/// Each named key sends its standard xterm sequence: Escape, Enter,
/// Backspace and Tab their control bytes (Shift+Tab `ESC [ Z`); the arrows
/// `A` to `D` (as `ESC O` in application cursor mode), Home `H` and End `F`;
/// Insert, Delete, Page Up and Page Down the tilde keys 2, 3, 5 and 6; F1
/// to F4 `P` to `S`; F5 to F12 the tilde keys 15, 17 to 21, 23 and 24.
pub proof fn law_named_keys_send_xterm_sequences(mods: Modifiers, csi_param: Option<u8>, app_cursor: bool)
    ensures
        named_key_bytes(NamedKey::Escape, mods, csi_param, app_cursor) == Some(seq![0x1bu8]),
        named_key_bytes(NamedKey::Enter, mods, csi_param, app_cursor) == Some(seq![0x0du8]),
        named_key_bytes(NamedKey::Backspace, mods, csi_param, app_cursor) == Some(seq![0x7fu8]),
        named_key_bytes(NamedKey::Tab, mods, csi_param, app_cursor) == Some(
            if mods.shift {
                seq![0x1bu8, 0x5bu8, 0x5au8]
            } else {
                seq![0x09u8]
            },
        ),
        named_key_bytes(NamedKey::ArrowUp, mods, csi_param, app_cursor) == Some(xterm_letter(0x41, csi_param, app_cursor)),
        named_key_bytes(NamedKey::ArrowDown, mods, csi_param, app_cursor) == Some(xterm_letter(0x42, csi_param, app_cursor)),
        named_key_bytes(NamedKey::ArrowRight, mods, csi_param, app_cursor) == Some(xterm_letter(0x43, csi_param, app_cursor)),
        named_key_bytes(NamedKey::ArrowLeft, mods, csi_param, app_cursor) == Some(xterm_letter(0x44, csi_param, app_cursor)),
        named_key_bytes(NamedKey::Home, mods, csi_param, app_cursor) == Some(xterm_letter(0x48, csi_param, false)),
        named_key_bytes(NamedKey::End, mods, csi_param, app_cursor) == Some(xterm_letter(0x46, csi_param, false)),
        named_key_bytes(NamedKey::Insert, mods, csi_param, app_cursor) == Some(xterm_tilde(seq![0x32u8], csi_param)),
        named_key_bytes(NamedKey::Delete, mods, csi_param, app_cursor) == Some(xterm_tilde(seq![0x33u8], csi_param)),
        named_key_bytes(NamedKey::PageUp, mods, csi_param, app_cursor) == Some(xterm_tilde(seq![0x35u8], csi_param)),
        named_key_bytes(NamedKey::PageDown, mods, csi_param, app_cursor) == Some(xterm_tilde(seq![0x36u8], csi_param)),
        named_key_bytes(NamedKey::F1, mods, csi_param, app_cursor) == Some(xterm_letter(0x50, csi_param, true)),
        named_key_bytes(NamedKey::F2, mods, csi_param, app_cursor) == Some(xterm_letter(0x51, csi_param, true)),
        named_key_bytes(NamedKey::F3, mods, csi_param, app_cursor) == Some(xterm_letter(0x52, csi_param, true)),
        named_key_bytes(NamedKey::F4, mods, csi_param, app_cursor) == Some(xterm_letter(0x53, csi_param, true)),
        named_key_bytes(NamedKey::F5, mods, csi_param, app_cursor) == Some(xterm_tilde(seq![0x31u8, 0x35u8], csi_param)),
        named_key_bytes(NamedKey::F6, mods, csi_param, app_cursor) == Some(xterm_tilde(seq![0x31u8, 0x37u8], csi_param)),
        named_key_bytes(NamedKey::F7, mods, csi_param, app_cursor) == Some(xterm_tilde(seq![0x31u8, 0x38u8], csi_param)),
        named_key_bytes(NamedKey::F8, mods, csi_param, app_cursor) == Some(xterm_tilde(seq![0x31u8, 0x39u8], csi_param)),
        named_key_bytes(NamedKey::F9, mods, csi_param, app_cursor) == Some(xterm_tilde(seq![0x32u8, 0x30u8], csi_param)),
        named_key_bytes(NamedKey::F10, mods, csi_param, app_cursor) == Some(xterm_tilde(seq![0x32u8, 0x31u8], csi_param)),
        named_key_bytes(NamedKey::F11, mods, csi_param, app_cursor) == Some(xterm_tilde(seq![0x32u8, 0x33u8], csi_param)),
        named_key_bytes(NamedKey::F12, mods, csi_param, app_cursor) == Some(xterm_tilde(seq![0x32u8, 0x34u8], csi_param)),
        named_key_bytes(NamedKey::Other, mods, csi_param, app_cursor) is None,
{
    reveal_with_fuel(decimal_ascii, 3);
    assert(decimal_ascii(2) =~= seq![0x32u8]);
    assert(decimal_ascii(3) =~= seq![0x33u8]);
    assert(decimal_ascii(5) =~= seq![0x35u8]);
    assert(decimal_ascii(6) =~= seq![0x36u8]);
    assert(decimal_ascii(1) =~= seq![0x31u8]);
    assert(decimal_ascii(15) =~= seq![0x31u8, 0x35u8]);
    assert(decimal_ascii(17) =~= seq![0x31u8, 0x37u8]);
    assert(decimal_ascii(18) =~= seq![0x31u8, 0x38u8]);
    assert(decimal_ascii(19) =~= seq![0x31u8, 0x39u8]);
    assert(decimal_ascii(20) =~= seq![0x32u8, 0x30u8]);
    assert(decimal_ascii(21) =~= seq![0x32u8, 0x31u8]);
    assert(decimal_ascii(23) =~= seq![0x32u8, 0x33u8]);
    assert(decimal_ascii(24) =~= seq![0x32u8, 0x34u8]);
    assert(latin1_utf8(0x48) =~= seq![0x48u8]);
    assert(latin1_utf8(0x46) =~= seq![0x46u8]);
    assert(latin1_utf8(0x41) =~= seq![0x41u8]);
    assert(latin1_utf8(0x42) =~= seq![0x42u8]);
    assert(latin1_utf8(0x43) =~= seq![0x43u8]);
    assert(latin1_utf8(0x44) =~= seq![0x44u8]);
}

} // verus!
