use vstd::prelude::*;

use crate::keys::KeyCode;
use crate::text::{chars_of, decimal, digit_char};

verus! {

/// The screens of the overlay.
#[derive(Clone, Copy, Debug, PartialEq, Eq, Structural)]
pub enum Screen {
    CmdPalette,
    Sessions,
    Releases,
    Opener,
    Detached,
}

/// Whether the overlay is shown, and which of its screens.
#[derive(Clone, Copy, Debug, PartialEq, Eq, Structural)]
pub struct Overlay {
    pub shown: bool,
    pub screen: Screen,
}

/// What a key does to the overlay before its screen sees it.
#[derive(Clone, Copy, Debug, PartialEq, Eq, Structural)]
pub enum OverlayKey {
    /// Not for the overlay: a release.
    Ignored,
    /// The overlay changed (shown, hidden, or another screen).
    Changed,
    /// For the current screen to handle.
    ToScreen(Screen),
}

/// The screen that Ctrl and `code` switch to, if any.
pub open spec fn screen_for(code: KeyCode) -> Option<Screen> {
    match code {
        KeyCode::KeyS => Some(Screen::Sessions),
        KeyCode::KeyC => Some(Screen::CmdPalette),
        KeyCode::KeyR => Some(Screen::Releases),
        KeyCode::KeyO => Some(Screen::Opener),
        _ => None,
    }
}

/// The overlay after a key event of `code`, pressed or released, with Ctrl
/// held or not, and what is left to do: Escape shows or hides it, Ctrl+S,
/// Ctrl+C, Ctrl+R and Ctrl+O switch screens, and any other pressed key goes
/// to the current screen.
pub open spec fn overlay_step(state: Overlay, code: KeyCode, pressed: bool, control: bool) -> (
    Overlay,
    OverlayKey,
) {
    if !pressed {
        (state, OverlayKey::Ignored)
    } else if code == KeyCode::Escape {
        (Overlay { shown: !state.shown, ..state }, OverlayKey::Changed)
    } else if control && screen_for(code) is Some {
        (Overlay { screen: screen_for(code)->0, ..state }, OverlayKey::Changed)
    } else {
        (state, OverlayKey::ToScreen(state.screen))
    }
}

impl Overlay {
    /// Hidden, on the command palette.
    pub fn new() -> (r: Overlay)
        ensures
            r == (Overlay { shown: false, screen: Screen::CmdPalette }),
    {
        Overlay { shown: false, screen: Screen::CmdPalette }
    }

    /// Shows the overlay when hidden, hides it when shown.
    pub fn toggle(&mut self)
        ensures
            *final(self) == (Overlay { shown: !old(self).shown, ..*old(self) }),
    {
        self.shown = !self.shown;
    }

    /// Whether the overlay is shown.
    pub fn shown(&self) -> (r: bool)
        ensures
            r == self.shown,
    {
        self.shown
    }

    /// Shows `screen`.
    pub fn show(&mut self, screen: Screen)
        ensures
            *final(self) == (Overlay { shown: true, screen }),
    {
        self.shown = true;
        self.screen = screen;
    }

    /// Handles a key event (see `overlay_step`).
    pub fn handle_input(&mut self, code: KeyCode, pressed: bool, control: bool) -> (r: OverlayKey)
        ensures
            (*final(self), r) == overlay_step(*old(self), code, pressed, control),
    {
        if !pressed {
            return OverlayKey::Ignored;
        }
        if code == KeyCode::Escape {
            self.shown = !self.shown;
            return OverlayKey::Changed;
        }
        if control {
            let screen = match code {
                KeyCode::KeyS => Some(Screen::Sessions),
                KeyCode::KeyC => Some(Screen::CmdPalette),
                KeyCode::KeyR => Some(Screen::Releases),
                KeyCode::KeyO => Some(Screen::Opener),
                _ => None,
            };
            if let Some(s) = screen {
                self.screen = s;
                return OverlayKey::Changed;
            }
        }
        OverlayKey::ToScreen(self.screen)
    }
}

/// The value of the decimal digits `s`.
pub open spec fn digits_value(s: Seq<char>) -> nat
    decreases s.len(),
{
    if s.len() == 0 {
        0
    } else {
        digits_value(s.drop_last()) * 10 + (s.last() as nat - '0' as nat) as nat
    }
}

/// Whether every character of `s` is a decimal digit.
pub open spec fn all_digits(s: Seq<char>) -> bool {
    forall|i: int| 0 <= i < s.len() ==> '0' <= #[trigger] s[i] <= '9'
}

/// The digits of a number as text: all of it, or what follows a leading
/// plus sign.
pub open spec fn unsigned_digits(s: Seq<char>) -> Seq<char> {
    if s.len() > 0 && s[0] == '+' {
        s.drop_first()
    } else {
        s
    }
}

/// The number that `s` spells in decimal, with an optional leading plus
/// sign: `None` when `s` has no digits, holds anything but digits, or
/// spells a number above `usize::MAX`.
pub open spec fn parsed_usize(s: Seq<char>) -> Option<usize> {
    let d = unsigned_digits(s);
    if d.len() > 0 && all_digits(d) && digits_value(d) <= usize::MAX {
        Some(digits_value(d) as usize)
    } else {
        None
    }
}

/// A prefix of digits spells no more than the whole.
proof fn lemma_digits_value_grows(s: Seq<char>, n: int)
    requires
        0 <= n <= s.len(),
        all_digits(s),
    ensures
        digits_value(s.take(n)) <= digits_value(s),
    decreases s.len() - n,
{
    if n < s.len() {
        lemma_digits_value_grows(s, n + 1);
        let t = s.take(n + 1);
        assert(t.drop_last() =~= s.take(n));
        assert(t.last() == s[n]);
        assert('0' <= s[n]);
        assert(digits_value(t) == digits_value(s.take(n)) * 10 + (s[n] as nat - '0' as nat) as nat);
    } else {
        assert(s.take(n) =~= s);
    }
}

/// Reads a decimal number (see `parsed_usize`).
pub fn parse_usize(s: &str) -> (r: Option<usize>)
    ensures
        r == parsed_usize(s@),
{
    let chars = chars_of(s);
    let mut i: usize = 0;
    if chars.len() > 0 && chars[0] == '+' {
        i = 1;
    }
    let ghost d = unsigned_digits(s@);
    assert(d =~= chars@.skip(i as int));
    if i >= chars.len() {
        return None;
    }
    let mut value: usize = 0;
    let start = i;
    while i < chars.len()
        invariant
            start <= i <= chars@.len(),
            chars@ == s@,
            d == chars@.skip(start as int),
            d == unsigned_digits(s@),
            all_digits(chars@.subrange(start as int, i as int)),
            value == digits_value(chars@.subrange(start as int, i as int)),
        decreases chars.len() - i,
    {
        let c = chars[i];
        if c < '0' || c > '9' {
            proof {
                assert(d[i - start] == c);
                assert(!all_digits(d));
            }
            return None;
        }
        let digit = (c as u32 - '0' as u32) as usize;
        proof {
            assert(chars@.subrange(start as int, i + 1).drop_last() =~= chars@.subrange(
                start as int,
                i as int,
            ));
        }
        if value > (usize::MAX - digit) / 10 {
            proof {
                assert(all_digits(chars@.subrange(start as int, i + 1)));
                let prefix = chars@.subrange(start as int, i + 1);
                assert(prefix.last() == c);
                assert(digits_value(prefix) == value * 10 + digit);
                assert(value * 10 + digit > usize::MAX) by (nonlinear_arith)
                    requires
                        value > (usize::MAX - digit) / 10,
                        digit <= 9,
                ;
                if all_digits(d) {
                    assert(prefix =~= d.take(i + 1 - start));
                    lemma_digits_value_grows(d, i + 1 - start);
                }
                assert(parsed_usize(s@) is None);
            }
            return None;
        }
        value = value * 10 + digit;
        i = i + 1;
    }
    assert(chars@.subrange(start as int, i as int) =~= d);
    Some(value)
}

/// The tab slot that the palette's `switch` command names: the slot of a
/// tab number from 1 to 9.
pub open spec fn switch_target(arg: Seq<char>) -> Option<usize> {
    match parsed_usize(arg) {
        Some(n) => if 1 <= n <= 9 {
            Some((n - 1) as usize)
        } else {
            None
        },
        None => None,
    }
}

/// The tab slot that the palette's `switch` command names (see
/// `switch_target`).
pub fn switch_command_target(arg: &str) -> (r: Option<usize>)
    ensures
        r == switch_target(arg@),
{
    match parse_usize(arg) {
        Some(n) => if n > 9 || n == 0 {
            None
        } else {
            Some(n - 1)
        },
        None => None,
    }
}

/// Pressing Escape twice leaves the overlay as it was.
pub proof fn law_escape_twice(state: Overlay, control: bool)
    ensures
        overlay_step(overlay_step(state, KeyCode::Escape, true, control).0, KeyCode::Escape, true, control).0
            == state,
{
}

/// A digit character stands for its digit.
proof fn lemma_digit_char_value(k: nat)
    requires
        k < 10,
    ensures
        '0' <= digit_char(k) <= '9',
        (digit_char(k) as nat - '0' as nat) as nat == k,
{
}

/// The decimal digits of a number spell that number.
proof fn lemma_decimal_value(n: nat)
    ensures
        all_digits(decimal(n)),
        decimal(n).len() > 0,
        digits_value(decimal(n)) == n,
    decreases n,
{
    if n >= 10 {
        lemma_decimal_value(n / 10);
        lemma_digit_char_value(n % 10);
        let d = decimal(n);
        assert(d.drop_last() =~= decimal(n / 10));
        assert(d.last() == digit_char(n % 10));
        assert forall|i: int| 0 <= i < d.len() implies '0' <= #[trigger] d[i] <= '9' by {
            if i < d.len() - 1 {
                assert(d[i] == decimal(n / 10)[i]);
            }
        }
        assert(digits_value(d) == digits_value(d.drop_last()) * 10 + (d.last() as nat - '0' as nat) as nat);
        assert(digits_value(d) == (n / 10) * 10 + n % 10);
    } else {
        lemma_digit_char_value(n);
        let d = decimal(n);
        assert(d[0] == digit_char(n));
        assert(d.drop_last() =~= Seq::<char>::empty());
        assert(digits_value(d) == digits_value(d.drop_last()) * 10 + (d.last() as nat - '0' as nat) as nat);
    }
}

/// Reading back the decimal digits of a number gives the number.
pub proof fn law_parse_reads_decimal(n: usize)
    ensures
        parsed_usize(decimal(n as nat)) == Some(n),
{
    lemma_decimal_value(n as nat);
    let d = decimal(n as nat);
    assert('0' <= d[0] <= '9');
}

/// The text attributes a cell can have.
#[derive(Clone, Copy, Debug, PartialEq, Eq, Structural)]
pub struct TextModifiers {
    pub bold: bool,
    pub dim: bool,
    pub italic: bool,
    pub underlined: bool,
    pub slow_blink: bool,
    pub rapid_blink: bool,
    pub reversed: bool,
    pub hidden: bool,
    pub crossed_out: bool,
}

/// A terminal command that sets or clears text attributes.
#[derive(Clone, Copy, Debug, PartialEq, Eq, Structural)]
pub enum Attribute {
    NoReverse,
    NormalIntensity,
    Dim,
    Bold,
    NoItalic,
    NoUnderline,
    NotCrossedOut,
    NoHidden,
    NoBlink,
    Reverse,
    Italic,
    Underlined,
    CrossedOut,
    Hidden,
    SlowBlink,
    RapidBlink,
}

/// The attributes in effect after the command `a`.
pub open spec fn apply_attribute(m: TextModifiers, a: Attribute) -> TextModifiers {
    match a {
        Attribute::NoReverse => TextModifiers { reversed: false, ..m },
        Attribute::NormalIntensity => TextModifiers { bold: false, dim: false, ..m },
        Attribute::Dim => TextModifiers { dim: true, ..m },
        Attribute::Bold => TextModifiers { bold: true, ..m },
        Attribute::NoItalic => TextModifiers { italic: false, ..m },
        Attribute::NoUnderline => TextModifiers { underlined: false, ..m },
        Attribute::NotCrossedOut => TextModifiers { crossed_out: false, ..m },
        Attribute::NoHidden => TextModifiers { hidden: false, ..m },
        Attribute::NoBlink => TextModifiers { slow_blink: false, rapid_blink: false, ..m },
        Attribute::Reverse => TextModifiers { reversed: true, ..m },
        Attribute::Italic => TextModifiers { italic: true, ..m },
        Attribute::Underlined => TextModifiers { underlined: true, ..m },
        Attribute::CrossedOut => TextModifiers { crossed_out: true, ..m },
        Attribute::Hidden => TextModifiers { hidden: true, ..m },
        Attribute::SlowBlink => TextModifiers { slow_blink: true, ..m },
        Attribute::RapidBlink => TextModifiers { rapid_blink: true, ..m },
    }
}

/// The attributes in effect after the commands `cmds`, in order.
pub open spec fn apply_attributes(m: TextModifiers, cmds: Seq<Attribute>) -> TextModifiers
    decreases cmds.len(),
{
    if cmds.len() == 0 {
        m
    } else {
        apply_attributes(apply_attribute(m, cmds[0]), cmds.drop_first())
    }
}

/// `cmd`, when `cond` holds.
pub open spec fn when(cond: bool, cmd: Attribute) -> Seq<Attribute> {
    if cond {
        seq![cmd]
    } else {
        Seq::empty()
    }
}

/// Step `k` (of 18) of taking a cell's attributes from `from` to `to`: a
/// command and whether it is sent. First comes the clearing of what goes
/// (Bold and Dim both by the normal intensity, after which those of `to` are
/// set again), then the setting of what comes.
pub open spec fn diff_step(from: TextModifiers, to: TextModifiers, k: int) -> (bool, Attribute) {
    let reset_intensity = (from.bold && !to.bold) || (from.dim && !to.dim);
    if k == 0 {
        (from.reversed && !to.reversed, Attribute::NoReverse)
    } else if k == 1 {
        (reset_intensity, Attribute::NormalIntensity)
    } else if k == 2 {
        (reset_intensity && to.dim, Attribute::Dim)
    } else if k == 3 {
        (reset_intensity && to.bold, Attribute::Bold)
    } else if k == 4 {
        (from.italic && !to.italic, Attribute::NoItalic)
    } else if k == 5 {
        (from.underlined && !to.underlined, Attribute::NoUnderline)
    } else if k == 6 {
        (from.crossed_out && !to.crossed_out, Attribute::NotCrossedOut)
    } else if k == 7 {
        (from.hidden && !to.hidden, Attribute::NoHidden)
    } else if k == 8 {
        ((from.slow_blink && !to.slow_blink) || (from.rapid_blink && !to.rapid_blink), Attribute::NoBlink)
    } else if k == 9 {
        (to.reversed && !from.reversed, Attribute::Reverse)
    } else if k == 10 {
        (to.bold && !from.bold && !reset_intensity, Attribute::Bold)
    } else if k == 11 {
        (to.italic && !from.italic, Attribute::Italic)
    } else if k == 12 {
        (to.underlined && !from.underlined, Attribute::Underlined)
    } else if k == 13 {
        (to.dim && !from.dim && !reset_intensity, Attribute::Dim)
    } else if k == 14 {
        (to.crossed_out && !from.crossed_out, Attribute::CrossedOut)
    } else if k == 15 {
        (to.hidden && !from.hidden, Attribute::Hidden)
    } else if k == 16 {
        (to.slow_blink && !from.slow_blink, Attribute::SlowBlink)
    } else {
        (to.rapid_blink && !from.rapid_blink, Attribute::RapidBlink)
    }
}

/// The steps of a change from `from` to `to` (see `diff_step`).
pub open spec fn diff_steps(from: TextModifiers, to: TextModifiers) -> Seq<(bool, Attribute)> {
    Seq::new(18, |k: int| diff_step(from, to, k))
}

/// The commands of `steps` that are sent, in order.
pub open spec fn sent(steps: Seq<(bool, Attribute)>) -> Seq<Attribute>
    decreases steps.len(),
{
    if steps.len() == 0 {
        Seq::empty()
    } else {
        sent(steps.drop_last()) + when(steps.last().0, steps.last().1)
    }
}

/// The commands that take a cell's attributes from `from` to `to` (see
/// `diff_steps`).
pub open spec fn modifier_diff(from: TextModifiers, to: TextModifiers) -> Seq<Attribute> {
    sent(diff_steps(from, to))
}

/// The attributes in effect after the step `step`.
pub open spec fn apply_step(m: TextModifiers, step: (bool, Attribute)) -> TextModifiers {
    if step.0 {
        apply_attribute(m, step.1)
    } else {
        m
    }
}

/// The attributes in effect after the sent commands of `steps`.
pub open spec fn apply_steps(m: TextModifiers, steps: Seq<(bool, Attribute)>) -> TextModifiers
    decreases steps.len(),
{
    if steps.len() == 0 {
        m
    } else {
        apply_step(apply_steps(m, steps.drop_last()), steps.last())
    }
}

/// Appends `cmd` to `out` when `cond` holds.
fn push_when(out: &mut Vec<Attribute>, cond: bool, cmd: Attribute)
    ensures
        final(out)@ == old(out)@ + when(cond, cmd),
{
    if cond {
        out.push(cmd);
    }
    assert(final(out)@ =~= old(out)@ + when(cond, cmd));
}

/// Step `k` of a change from `from` to `to` (see `diff_step`).
fn step_of(from: TextModifiers, to: TextModifiers, k: usize) -> (r: (bool, Attribute))
    requires
        k < 18,
    ensures
        r == diff_step(from, to, k as int),
{
    let reset_intensity = (from.bold && !to.bold) || (from.dim && !to.dim);
    if k == 0 {
        (from.reversed && !to.reversed, Attribute::NoReverse)
    } else if k == 1 {
        (reset_intensity, Attribute::NormalIntensity)
    } else if k == 2 {
        (reset_intensity && to.dim, Attribute::Dim)
    } else if k == 3 {
        (reset_intensity && to.bold, Attribute::Bold)
    } else if k == 4 {
        (from.italic && !to.italic, Attribute::NoItalic)
    } else if k == 5 {
        (from.underlined && !to.underlined, Attribute::NoUnderline)
    } else if k == 6 {
        (from.crossed_out && !to.crossed_out, Attribute::NotCrossedOut)
    } else if k == 7 {
        (from.hidden && !to.hidden, Attribute::NoHidden)
    } else if k == 8 {
        ((from.slow_blink && !to.slow_blink) || (from.rapid_blink && !to.rapid_blink), Attribute::NoBlink)
    } else if k == 9 {
        (to.reversed && !from.reversed, Attribute::Reverse)
    } else if k == 10 {
        (to.bold && !from.bold && !reset_intensity, Attribute::Bold)
    } else if k == 11 {
        (to.italic && !from.italic, Attribute::Italic)
    } else if k == 12 {
        (to.underlined && !from.underlined, Attribute::Underlined)
    } else if k == 13 {
        (to.dim && !from.dim && !reset_intensity, Attribute::Dim)
    } else if k == 14 {
        (to.crossed_out && !from.crossed_out, Attribute::CrossedOut)
    } else if k == 15 {
        (to.hidden && !from.hidden, Attribute::Hidden)
    } else if k == 16 {
        (to.slow_blink && !from.slow_blink, Attribute::SlowBlink)
    } else {
        (to.rapid_blink && !from.rapid_blink, Attribute::RapidBlink)
    }
}

/// The commands that take a cell's attributes from `from` to `to` (see
/// `modifier_diff`).
pub fn modifier_commands(from: TextModifiers, to: TextModifiers) -> (r: Vec<Attribute>)
    ensures
        r@ == modifier_diff(from, to),
{
    let ghost steps = diff_steps(from, to);
    let mut out: Vec<Attribute> = Vec::new();
    let mut k: usize = 0;
    while k < 18
        invariant
            k <= 18,
            steps == diff_steps(from, to),
            out@ == sent(steps.take(k as int)),
        decreases 18 - k,
    {
        let (cond, cmd) = step_of(from, to, k);
        push_when(&mut out, cond, cmd);
        assert(steps.take(k + 1).drop_last() =~= steps.take(k as int));
        k = k + 1;
    }
    assert(steps.take(18) =~= steps);
    out
}

/// Applying commands one list after another is applying them joined.
proof fn lemma_apply_concat(m: TextModifiers, a: Seq<Attribute>, b: Seq<Attribute>)
    ensures
        apply_attributes(m, a + b) == apply_attributes(apply_attributes(m, a), b),
    decreases a.len(),
{
    if a.len() > 0 {
        assert((a + b).drop_first() =~= a.drop_first() + b);
        lemma_apply_concat(apply_attribute(m, a[0]), a.drop_first(), b);
    } else {
        assert(a + b =~= b);
    }
}

/// Applying the sent commands of some steps is applying the steps.
proof fn lemma_apply_sent(m: TextModifiers, steps: Seq<(bool, Attribute)>)
    ensures
        apply_attributes(m, sent(steps)) == apply_steps(m, steps),
    decreases steps.len(),
{
    if steps.len() > 0 {
        let last = when(steps.last().0, steps.last().1);
        lemma_apply_sent(m, steps.drop_last());
        lemma_apply_concat(m, sent(steps.drop_last()), last);
        let m1 = apply_steps(m, steps.drop_last());
        if steps.last().0 {
            assert(last.drop_first() =~= Seq::<Attribute>::empty());
            assert(apply_attributes(apply_attribute(m1, steps.last().1), Seq::empty()) == apply_attribute(
                m1,
                steps.last().1,
            ));
        }
    }
}

/// Applying one more step of a prefix.
proof fn lemma_steps_prefix(m: TextModifiers, steps: Seq<(bool, Attribute)>, k: int)
    requires
        0 <= k < steps.len(),
    ensures
        apply_steps(m, steps.take(k + 1)) == apply_step(apply_steps(m, steps.take(k)), steps[k]),
{
    assert(steps.take(k + 1).drop_last() =~= steps.take(k));
}

/// The attributes once the clearing commands of a change from `from` to
/// `to` have been applied.
pub open spec fn cleared(from: TextModifiers, to: TextModifiers) -> TextModifiers {
    let reset_intensity = (from.bold && !to.bold) || (from.dim && !to.dim);
    let stop_blink = (from.slow_blink && !to.slow_blink) || (from.rapid_blink && !to.rapid_blink);
    TextModifiers {
        bold: if reset_intensity {
            to.bold
        } else {
            from.bold
        },
        dim: if reset_intensity {
            to.dim
        } else {
            from.dim
        },
        italic: from.italic && to.italic,
        underlined: from.underlined && to.underlined,
        slow_blink: from.slow_blink && !stop_blink,
        rapid_blink: from.rapid_blink && !stop_blink,
        reversed: from.reversed && to.reversed,
        hidden: from.hidden && to.hidden,
        crossed_out: from.crossed_out && to.crossed_out,
    }
}

/// The commands of a modifier change take the attributes from `from` to
/// `to`, except when a blink goes while another blink stays: the single
/// command that stops blinking stops both, and the one that stays is not
/// set again.
/// The states after each step of a change, applied one by one.
proof fn lemma_steps_one_by_one(from: TextModifiers, to: TextModifiers)
    ensures
        ({
            let m0 = from;
            let m1 = apply_step(m0, diff_step(from, to, 0));
            let m2 = apply_step(m1, diff_step(from, to, 1));
            let m3 = apply_step(m2, diff_step(from, to, 2));
            let m4 = apply_step(m3, diff_step(from, to, 3));
            let m5 = apply_step(m4, diff_step(from, to, 4));
            let m6 = apply_step(m5, diff_step(from, to, 5));
            let m7 = apply_step(m6, diff_step(from, to, 6));
            let m8 = apply_step(m7, diff_step(from, to, 7));
            let m9 = apply_step(m8, diff_step(from, to, 8));
            let m10 = apply_step(m9, diff_step(from, to, 9));
            let m11 = apply_step(m10, diff_step(from, to, 10));
            let m12 = apply_step(m11, diff_step(from, to, 11));
            let m13 = apply_step(m12, diff_step(from, to, 12));
            let m14 = apply_step(m13, diff_step(from, to, 13));
            let m15 = apply_step(m14, diff_step(from, to, 14));
            let m16 = apply_step(m15, diff_step(from, to, 15));
            let m17 = apply_step(m16, diff_step(from, to, 16));
            let m18 = apply_step(m17, diff_step(from, to, 17));
            apply_steps(from, diff_steps(from, to).take(18)) == m18
        }),
{
    let d = diff_steps(from, to);
    let m0 = from;
    let m1 = apply_step(m0, diff_step(from, to, 0));
    let m2 = apply_step(m1, diff_step(from, to, 1));
    let m3 = apply_step(m2, diff_step(from, to, 2));
    let m4 = apply_step(m3, diff_step(from, to, 3));
    let m5 = apply_step(m4, diff_step(from, to, 4));
    let m6 = apply_step(m5, diff_step(from, to, 5));
    let m7 = apply_step(m6, diff_step(from, to, 6));
    let m8 = apply_step(m7, diff_step(from, to, 7));
    let m9 = apply_step(m8, diff_step(from, to, 8));
    let m10 = apply_step(m9, diff_step(from, to, 9));
    let m11 = apply_step(m10, diff_step(from, to, 10));
    let m12 = apply_step(m11, diff_step(from, to, 11));
    let m13 = apply_step(m12, diff_step(from, to, 12));
    let m14 = apply_step(m13, diff_step(from, to, 13));
    let m15 = apply_step(m14, diff_step(from, to, 14));
    let m16 = apply_step(m15, diff_step(from, to, 15));
    let m17 = apply_step(m16, diff_step(from, to, 16));
    let m18 = apply_step(m17, diff_step(from, to, 17));
    assert(d.take(0) =~= Seq::<(bool, Attribute)>::empty());
    lemma_steps_prefix(from, d, 0);
    assert(apply_steps(from, d.take(1)) == m1);
    lemma_steps_prefix(from, d, 1);
    assert(apply_steps(from, d.take(2)) == m2);
    lemma_steps_prefix(from, d, 2);
    assert(apply_steps(from, d.take(3)) == m3);
    lemma_steps_prefix(from, d, 3);
    assert(apply_steps(from, d.take(4)) == m4);
    lemma_steps_prefix(from, d, 4);
    assert(apply_steps(from, d.take(5)) == m5);
    lemma_steps_prefix(from, d, 5);
    assert(apply_steps(from, d.take(6)) == m6);
    lemma_steps_prefix(from, d, 6);
    assert(apply_steps(from, d.take(7)) == m7);
    lemma_steps_prefix(from, d, 7);
    assert(apply_steps(from, d.take(8)) == m8);
    lemma_steps_prefix(from, d, 8);
    assert(apply_steps(from, d.take(9)) == m9);
    lemma_steps_prefix(from, d, 9);
    assert(apply_steps(from, d.take(10)) == m10);
    lemma_steps_prefix(from, d, 10);
    assert(apply_steps(from, d.take(11)) == m11);
    lemma_steps_prefix(from, d, 11);
    assert(apply_steps(from, d.take(12)) == m12);
    lemma_steps_prefix(from, d, 12);
    assert(apply_steps(from, d.take(13)) == m13);
    lemma_steps_prefix(from, d, 13);
    assert(apply_steps(from, d.take(14)) == m14);
    lemma_steps_prefix(from, d, 14);
    assert(apply_steps(from, d.take(15)) == m15);
    lemma_steps_prefix(from, d, 15);
    assert(apply_steps(from, d.take(16)) == m16);
    lemma_steps_prefix(from, d, 16);
    assert(apply_steps(from, d.take(17)) == m17);
    lemma_steps_prefix(from, d, 17);
    assert(apply_steps(from, d.take(18)) == m18);
}

/// The first nine steps of a change clear what goes.
proof fn lemma_clearing_steps(from: TextModifiers, to: TextModifiers)
    ensures
        ({
            let m0 = from;
            let m1 = apply_step(m0, diff_step(from, to, 0));
            let m2 = apply_step(m1, diff_step(from, to, 1));
            let m3 = apply_step(m2, diff_step(from, to, 2));
            let m4 = apply_step(m3, diff_step(from, to, 3));
            let m5 = apply_step(m4, diff_step(from, to, 4));
            let m6 = apply_step(m5, diff_step(from, to, 5));
            let m7 = apply_step(m6, diff_step(from, to, 6));
            let m8 = apply_step(m7, diff_step(from, to, 7));
            let m9 = apply_step(m8, diff_step(from, to, 8));
            m9 == cleared(from, to)
        }),
{
}

/// The last nine steps of a change, from the cleared attributes, set what
/// comes, unless a blink goes while another stays.
#[verifier::rlimit(100)]
proof fn lemma_setting_steps(from: TextModifiers, to: TextModifiers)
    requires
        !(((from.slow_blink && !to.slow_blink) || (from.rapid_blink && !to.rapid_blink)) && (
        to.slow_blink || to.rapid_blink)),
    ensures
        ({
            let m9 = cleared(from, to);
            let m10 = apply_step(m9, diff_step(from, to, 9));
            let m11 = apply_step(m10, diff_step(from, to, 10));
            let m12 = apply_step(m11, diff_step(from, to, 11));
            let m13 = apply_step(m12, diff_step(from, to, 12));
            let m14 = apply_step(m13, diff_step(from, to, 13));
            let m15 = apply_step(m14, diff_step(from, to, 14));
            let m16 = apply_step(m15, diff_step(from, to, 15));
            let m17 = apply_step(m16, diff_step(from, to, 16));
            let m18 = apply_step(m17, diff_step(from, to, 17));
            m18 == to
        }),
{
    let m9 = cleared(from, to);
    lemma_set_step(from, to, 9, m9);
    let m10 = set_field(m9, 9, diff_step(from, to, 9).0);
    lemma_set_step(from, to, 10, m10);
    let m11 = set_field(m10, 10, diff_step(from, to, 10).0);
    lemma_set_step(from, to, 11, m11);
    let m12 = set_field(m11, 11, diff_step(from, to, 11).0);
    lemma_set_step(from, to, 12, m12);
    let m13 = set_field(m12, 12, diff_step(from, to, 12).0);
    lemma_set_step(from, to, 13, m13);
    let m14 = set_field(m13, 13, diff_step(from, to, 13).0);
    lemma_set_step(from, to, 14, m14);
    let m15 = set_field(m14, 14, diff_step(from, to, 14).0);
    lemma_set_step(from, to, 15, m15);
    let m16 = set_field(m15, 15, diff_step(from, to, 15).0);
    lemma_set_step(from, to, 16, m16);
    let m17 = set_field(m16, 16, diff_step(from, to, 16).0);
    lemma_set_step(from, to, 17, m17);
    let m18 = set_field(m17, 17, diff_step(from, to, 17).0);
    let reset = (from.bold && !to.bold) || (from.dim && !to.dim);
    assert(m18.reversed == (m9.reversed || (to.reversed && !from.reversed)));
    assert(m18.bold == (m9.bold || (to.bold && !from.bold && !reset)));
    assert(m18.italic == (m9.italic || (to.italic && !from.italic)));
    assert(m18.underlined == (m9.underlined || (to.underlined && !from.underlined)));
    assert(m18.dim == (m9.dim || (to.dim && !from.dim && !reset)));
    assert(m18.crossed_out == (m9.crossed_out || (to.crossed_out && !from.crossed_out)));
    assert(m18.hidden == (m9.hidden || (to.hidden && !from.hidden)));
    assert(m18.slow_blink == (m9.slow_blink || (to.slow_blink && !from.slow_blink)));
    assert(m18.rapid_blink == (m9.rapid_blink || (to.rapid_blink && !from.rapid_blink)));
}

/// `m` with the field that setting step `k` (9 to 17) sets, set when `on`.
spec fn set_field(m: TextModifiers, k: int, on: bool) -> TextModifiers {
    if !on {
        m
    } else if k == 9 {
        TextModifiers { reversed: true, ..m }
    } else if k == 10 {
        TextModifiers { bold: true, ..m }
    } else if k == 11 {
        TextModifiers { italic: true, ..m }
    } else if k == 12 {
        TextModifiers { underlined: true, ..m }
    } else if k == 13 {
        TextModifiers { dim: true, ..m }
    } else if k == 14 {
        TextModifiers { crossed_out: true, ..m }
    } else if k == 15 {
        TextModifiers { hidden: true, ..m }
    } else if k == 16 {
        TextModifiers { slow_blink: true, ..m }
    } else {
        TextModifiers { rapid_blink: true, ..m }
    }
}

/// A setting step sets one field.
proof fn lemma_set_step(from: TextModifiers, to: TextModifiers, k: int, m: TextModifiers)
    requires
        9 <= k < 18,
    ensures
        apply_step(m, diff_step(from, to, k)) == set_field(m, k, diff_step(from, to, k).0),
{
}

/// The commands of a modifier change take the attributes from `from` to
/// `to`, except when a blink goes while another blink stays: the single
/// command that stops blinking stops both, and the one that stays is not
/// set again.
pub proof fn law_modifier_diff_reaches_target(from: TextModifiers, to: TextModifiers)
    requires
        !(((from.slow_blink && !to.slow_blink) || (from.rapid_blink && !to.rapid_blink)) && (
        to.slow_blink || to.rapid_blink)),
    ensures
        apply_attributes(from, modifier_diff(from, to)) == to,
{
    let d = diff_steps(from, to);
    lemma_apply_sent(from, d);
    lemma_steps_one_by_one(from, to);
    lemma_clearing_steps(from, to);
    lemma_setting_steps(from, to);
    assert(d.take(18) =~= d);
}

/// A color of the overlay's widgets: a named one of the sixteen, an index
/// into the 256-color palette, an RGB value, or the terminal's default.
#[derive(Clone, Copy, Debug, PartialEq, Eq, Structural)]
pub enum UiColor {
    Reset,
    Black,
    Red,
    Green,
    Yellow,
    Blue,
    Magenta,
    Cyan,
    Gray,
    DarkGray,
    LightRed,
    LightGreen,
    LightYellow,
    LightBlue,
    LightMagenta,
    LightCyan,
    White,
    Rgb(u8, u8, u8),
    Indexed(u8),
}

/// A cell of the overlay to draw: its position, its text, its colors and its
/// attributes.
pub struct DrawCell {
    pub x: u16,
    pub y: u16,
    pub symbol: String,
    pub fg: UiColor,
    pub bg: UiColor,
    pub modifiers: TextModifiers,
}

/// A command to the terminal that shows the overlay.
pub enum DrawOp {
    MoveTo(u16, u16),
    SetAttribute(Attribute),
    SetColors(UiColor, UiColor),
    Print(String),
    ResetForeground,
    ResetBackground,
    ResetAttributes,
}

/// A drawing command as a value.
pub enum DrawStep {
    MoveTo(u16, u16),
    SetAttribute(Attribute),
    SetColors(UiColor, UiColor),
    Print(Seq<char>),
    ResetForeground,
    ResetBackground,
    ResetAttributes,
}

/// A drawing command as a value.
pub open spec fn draw_step(op: DrawOp) -> DrawStep {
    match op {
        DrawOp::MoveTo(x, y) => DrawStep::MoveTo(x, y),
        DrawOp::SetAttribute(a) => DrawStep::SetAttribute(a),
        DrawOp::SetColors(f, b) => DrawStep::SetColors(f, b),
        DrawOp::Print(t) => DrawStep::Print(t@),
        DrawOp::ResetForeground => DrawStep::ResetForeground,
        DrawOp::ResetBackground => DrawStep::ResetBackground,
        DrawOp::ResetAttributes => DrawStep::ResetAttributes,
    }
}

/// A cell to draw as a value: (x, y, text, foreground, background,
/// attributes).
pub open spec fn cell_view(c: DrawCell) -> (u16, u16, Seq<char>, UiColor, UiColor, TextModifiers) {
    (c.x, c.y, c.symbol@, c.fg, c.bg, c.modifiers)
}

/// What drawing is in effect between cells: the last cell drawn, the
/// colors and the attributes.
pub struct Pen {
    pub last: Option<(u16, u16)>,
    pub fg: UiColor,
    pub bg: UiColor,
    pub modifiers: TextModifiers,
}

/// The pen before the first cell: no cell drawn, default colors, no
/// attribute.
pub open spec fn fresh_pen() -> Pen {
    Pen {
        last: None,
        fg: UiColor::Reset,
        bg: UiColor::Reset,
        modifiers: TextModifiers {
            bold: false,
            dim: false,
            italic: false,
            underlined: false,
            slow_blink: false,
            rapid_blink: false,
            reversed: false,
            hidden: false,
            crossed_out: false,
        },
    }
}

/// The commands that draw one cell with the pen `pen`: a cursor move unless
/// the cell follows the last one on its row, the attribute changes, the
/// colors when they change, and the cell's text.
pub open spec fn cell_steps(pen: Pen, c: (u16, u16, Seq<char>, UiColor, UiColor, TextModifiers)) -> Seq<
    DrawStep,
> {
    let (x, y, text, fg, bg, m) = c;
    let adjacent = match pen.last {
        Some((px, py)) => x == px + 1 && y == py,
        None => false,
    };
    (if adjacent {
        Seq::empty()
    } else {
        seq![DrawStep::MoveTo(x, y)]
    }) + (if m != pen.modifiers {
        modifier_diff(pen.modifiers, m).map_values(|a: Attribute| DrawStep::SetAttribute(a))
    } else {
        Seq::empty()
    }) + (if fg != pen.fg || bg != pen.bg {
        seq![DrawStep::SetColors(fg, bg)]
    } else {
        Seq::empty()
    }) + seq![DrawStep::Print(text)]
}

/// The pen after drawing a cell.
pub open spec fn pen_after(c: (u16, u16, Seq<char>, UiColor, UiColor, TextModifiers)) -> Pen {
    Pen { last: Some((c.0, c.1)), fg: c.3, bg: c.4, modifiers: c.5 }
}

/// The commands that draw `cells` in order, starting with the pen `pen`.
pub open spec fn cells_steps(pen: Pen, cells: Seq<(u16, u16, Seq<char>, UiColor, UiColor, TextModifiers)>) -> Seq<
    DrawStep,
>
    decreases cells.len(),
{
    if cells.len() == 0 {
        Seq::empty()
    } else {
        cell_steps(pen, cells[0]) + cells_steps(pen_after(cells[0]), cells.drop_first())
    }
}

/// The commands that draw `cells`, followed by resetting the colors and the
/// attributes.
pub open spec fn draw_steps(cells: Seq<(u16, u16, Seq<char>, UiColor, UiColor, TextModifiers)>) -> Seq<
    DrawStep,
> {
    cells_steps(fresh_pen(), cells) + seq![
        DrawStep::ResetForeground,
        DrawStep::ResetBackground,
        DrawStep::ResetAttributes,
    ]
}

/// The commands that draw the overlay's changed `cells` (see `draw_steps`).
pub fn draw_commands(cells: &Vec<DrawCell>) -> (r: Vec<DrawOp>)
    ensures
        r@.map_values(|o: DrawOp| draw_step(o)) == draw_steps(
            cells@.map_values(|c: DrawCell| cell_view(c)),
        ),
{
    let ghost views = cells@.map_values(|c: DrawCell| cell_view(c));
    let mut out: Vec<DrawOp> = Vec::new();
    let mut last: Option<(u16, u16)> = None;
    let mut fg = UiColor::Reset;
    let mut bg = UiColor::Reset;
    let mut modifiers = TextModifiers {
        bold: false,
        dim: false,
        italic: false,
        underlined: false,
        slow_blink: false,
        rapid_blink: false,
        reversed: false,
        hidden: false,
        crossed_out: false,
    };
    let mut i: usize = 0;
    proof {
        assert(views.skip(0) =~= views);
        assert(out@.map_values(|o: DrawOp| draw_step(o)) + cells_steps(fresh_pen(), views) =~= cells_steps(
            fresh_pen(),
            views,
        ));
    }
    while i < cells.len()
        invariant
            i <= cells@.len(),
            views == cells@.map_values(|c: DrawCell| cell_view(c)),
            out@.map_values(|o: DrawOp| draw_step(o)) + cells_steps(
                Pen { last, fg, bg, modifiers },
                views.skip(i as int),
            ) == cells_steps(fresh_pen(), views),
        decreases cells.len() - i,
    {
        let ghost before = out@.map_values(|o: DrawOp| draw_step(o));
        let ghost pen = Pen { last, fg, bg, modifiers };
        let cell = &cells[i];
        let ghost cv = views[i as int];
        assert(cv == cell_view(*cell));
        let adjacent = match last {
            Some((px, py)) => px < u16::MAX && cell.x == px + 1 && cell.y == py,
            None => false,
        };
        if !adjacent {
            out.push(DrawOp::MoveTo(cell.x, cell.y));
        }
        let ghost after_move = out@.map_values(|o: DrawOp| draw_step(o));
        assert(after_move =~= before + (if adjacent {
            Seq::<DrawStep>::empty()
        } else {
            seq![DrawStep::MoveTo(cell.x, cell.y)]
        }));
        if cell.modifiers != modifiers {
            let cmds = modifier_commands(modifiers, cell.modifiers);
            let mut k: usize = 0;
            let ghost base = out@.map_values(|o: DrawOp| draw_step(o));
            while k < cmds.len()
                invariant
                    k <= cmds@.len(),
                    out@.map_values(|o: DrawOp| draw_step(o)) == base + cmds@.take(k as int).map_values(
                        |a: Attribute| DrawStep::SetAttribute(a),
                    ),
                decreases cmds.len() - k,
            {
                let ghost prev = out@.map_values(|o: DrawOp| draw_step(o));
                out.push(DrawOp::SetAttribute(cmds[k]));
                proof {
                    assert(out@.map_values(|o: DrawOp| draw_step(o)) =~= prev.push(
                        DrawStep::SetAttribute(cmds@[k as int]),
                    ));
                    assert(cmds@.take(k + 1).map_values(|a: Attribute| DrawStep::SetAttribute(a))
                        =~= cmds@.take(k as int).map_values(|a: Attribute| DrawStep::SetAttribute(a)).push(
                        DrawStep::SetAttribute(cmds@[k as int]),
                    ));
                }
                k = k + 1;
                assert(out@.map_values(|o: DrawOp| draw_step(o)) =~= base + cmds@.take(k as int).map_values(
                    |a: Attribute| DrawStep::SetAttribute(a),
                ));
            }
            assert(cmds@.take(cmds@.len() as int) =~= cmds@);
            modifiers = cell.modifiers;
        }
        let ghost after_attrs = out@.map_values(|o: DrawOp| draw_step(o));
        assert(after_attrs =~= after_move + (if cv.5 != pen.modifiers {
            modifier_diff(pen.modifiers, cv.5).map_values(|a: Attribute| DrawStep::SetAttribute(a))
        } else {
            Seq::<DrawStep>::empty()
        }));
        if cell.fg != fg || cell.bg != bg {
            out.push(DrawOp::SetColors(cell.fg, cell.bg));
            fg = cell.fg;
            bg = cell.bg;
        }
        let ghost after_colors = out@.map_values(|o: DrawOp| draw_step(o));
        assert(after_colors =~= after_attrs + (if cv.3 != pen.fg || cv.4 != pen.bg {
            seq![DrawStep::SetColors(cv.3, cv.4)]
        } else {
            Seq::<DrawStep>::empty()
        }));
        out.push(DrawOp::Print(cell.symbol.clone()));
        last = Some((cell.x, cell.y));
        proof {
            assert(out@.map_values(|o: DrawOp| draw_step(o)) =~= after_colors.push(DrawStep::Print(cv.2)));
            assert(views.skip(i as int).drop_first() =~= views.skip(i + 1));
            assert(views.skip(i as int)[0] == cv);
            assert(out@.map_values(|o: DrawOp| draw_step(o)) =~= before + cell_steps(pen, cv));
            assert(before + cell_steps(pen, cv) + cells_steps(pen_after(cv), views.skip(i + 1)) =~= before
                + cells_steps(pen, views.skip(i as int)));
        }
        i = i + 1;
    }
    let ghost drawn = out@.map_values(|o: DrawOp| draw_step(o));
    out.push(DrawOp::ResetForeground);
    out.push(DrawOp::ResetBackground);
    out.push(DrawOp::ResetAttributes);
    proof {
        assert(views.skip(i as int) =~= Seq::<(u16, u16, Seq<char>, UiColor, UiColor, TextModifiers)>::empty());
        assert(out@.map_values(|o: DrawOp| draw_step(o)) =~= drawn + seq![
            DrawStep::ResetForeground,
            DrawStep::ResetBackground,
            DrawStep::ResetAttributes,
        ]);
    }
    out
}

} // verus!
