use vstd::prelude::*;

verus! {

/// An sRGB color with alpha, one byte per channel.
#[derive(Clone, Copy, Debug)]
pub struct Color([u8; 4]);

/// A terminal cell's color as the terminal reports it: an index into the
/// 256-color palette, a direct RGB value, or the default.
#[derive(Clone, Copy, Debug, PartialEq, Eq, Structural)]
pub enum TermColor {
    Idx(u8),
    Rgb(u8, u8, u8),
    Default,
}

impl Color {
    /// The channels red, green, blue and alpha.
    pub closed spec fn channels(self) -> (u8, u8, u8, u8) {
        (self.0[0], self.0[1], self.0[2], self.0[3])
    }

    /// An opaque color.
    pub fn rgb(r: u8, g: u8, b: u8) -> (c: Self)
        ensures
            c.channels() == (r, g, b, 0xFFu8),
    {
        Color([r, g, b, 0xFF])
    }

    /// The channels red, green, blue and alpha.
    pub fn rgba(&self) -> (r: (u8, u8, u8, u8))
        ensures
            r == self.channels(),
    {
        (self.0[0], self.0[1], self.0[2], self.0[3])
    }
}

/// The first sixteen palette entries, the terminal's base colors.
pub open spec fn base16(i: u8) -> (u8, u8, u8) {
    if i == 0 {
        (0x36, 0x38, 0x4a)
    } else if i == 1 || i == 9 {
        (0xd4, 0x6c, 0x8a)
    } else if i == 2 || i == 10 {
        (0x82, 0xb8, 0x7e)
    } else if i == 3 || i == 11 {
        (0xd9, 0xb8, 0x8a)
    } else if i == 4 || i == 12 {
        (0x6c, 0x8c, 0xd8)
    } else if i == 5 || i == 13 {
        (0xc8, 0x96, 0xc8)
    } else if i == 6 || i == 14 {
        (0x72, 0xb4, 0xa8)
    } else if i == 7 {
        (0x94, 0x9c, 0xb4)
    } else if i == 8 {
        (0x48, 0x4b, 0x5e)
    } else {
        (0x88, 0x8f, 0xa8)
    }
}

/// The intensity of step `k` (0 to 5) of the 6x6x6 color cube: 0, then 95
/// and up by 40.
pub open spec fn cube_step(k: int) -> int {
    if k == 0 {
        0
    } else {
        55 + 40 * k
    }
}

/// The RGB value of palette entry `idx`: the base colors, the 6x6x6 cube
/// from 16 to 231 (red, green, blue in base 6), and a gray ramp from 232
/// on, 8 and up by 10.
pub open spec fn palette_rgb(idx: u8) -> (int, int, int) {
    if idx < 16 {
        let (r, g, b) = base16(idx);
        (r as int, g as int, b as int)
    } else if idx <= 231 {
        let n = idx - 16;
        (cube_step(n / 36), cube_step((n % 36) / 6), cube_step(n % 6))
    } else {
        let gray = 8 + 10 * (idx - 232);
        (gray, gray, gray)
    }
}

/// The base color `i` (below 16).
fn base16_rgb(i: u8) -> (r: (u8, u8, u8))
    requires
        i < 16,
    ensures
        r == base16(i),
{
    let table: [(u8, u8, u8); 16] = [
        (0x36, 0x38, 0x4a),
        (0xd4, 0x6c, 0x8a),
        (0x82, 0xb8, 0x7e),
        (0xd9, 0xb8, 0x8a),
        (0x6c, 0x8c, 0xd8),
        (0xc8, 0x96, 0xc8),
        (0x72, 0xb4, 0xa8),
        (0x94, 0x9c, 0xb4),
        (0x48, 0x4b, 0x5e),
        (0xd4, 0x6c, 0x8a),
        (0x82, 0xb8, 0x7e),
        (0xd9, 0xb8, 0x8a),
        (0x6c, 0x8c, 0xd8),
        (0xc8, 0x96, 0xc8),
        (0x72, 0xb4, 0xa8),
        (0x88, 0x8f, 0xa8),
    ];
    table[i as usize]
}

/// The intensity of step `k` of the color cube (see `cube_step`).
fn cube_value(k: u8) -> (r: u8)
    requires
        k < 6,
    ensures
        r == cube_step(k as int),
{
    let steps: [u8; 6] = [0, 95, 135, 175, 215, 255];
    steps[k as usize]
}

/// The opaque color of palette entry `idx` (see `palette_rgb`).
pub fn ansi_index_to_rgb(idx: u8) -> (c: Color)
    ensures
        ({
            let (r, g, b) = palette_rgb(idx);
            c.channels() == (r as u8, g as u8, b as u8, 0xFFu8)
        }),
{
    if idx < 16 {
        let (r, g, b) = base16_rgb(idx);
        return Color::rgb(r, g, b);
    }
    if idx <= 231 {
        let n = idx - 16;
        let r = n / 36;
        let g = (n % 36) / 6;
        let b = n % 6;
        return Color::rgb(cube_value(r), cube_value(g), cube_value(b));
    }
    // From 232 on the ramp stays below 256: 8 + 10 * 23 at most.
    let gray = 8 + (idx - 232) * 10;
    Color::rgb(gray, gray, gray)
}

/// The color of a cell's background: its palette entry, its RGB value, or
/// the window's background for the default.
pub open spec fn background_of(c: TermColor) -> (u8, u8, u8, u8) {
    match c {
        TermColor::Idx(i) => {
            let (r, g, b) = palette_rgb(i);
            (r as u8, g as u8, b as u8, 0xFFu8)
        },
        TermColor::Rgb(r, g, b) => (r, g, b, 0xFFu8),
        TermColor::Default => (0x18u8, 0x18u8, 0x18u8, 0xFFu8),
    }
}

/// The color of a cell's text: as for the background, except that the
/// default is the light foreground.
pub open spec fn foreground_of(c: TermColor) -> (u8, u8, u8, u8) {
    match c {
        TermColor::Default => (0xc6u8, 0xd0u8, 0xf5u8, 0xFFu8),
        _ => background_of(c),
    }
}

impl Color {
    /// The color of a terminal color used as a background (see
    /// `background_of`).
    pub fn from_term(c: TermColor) -> (r: Color)
        ensures
            r.channels() == background_of(c),
    {
        match c {
            TermColor::Idx(i) => ansi_index_to_rgb(i),
            TermColor::Rgb(r, g, b) => Color([r, g, b, 0xFF]),
            TermColor::Default => Color([0x18, 0x18, 0x18, 0xFF]),
        }
    }

    /// The color of a terminal color used for text (see `foreground_of`).
    pub fn foreground(c: TermColor) -> (r: Color)
        ensures
            r.channels() == foreground_of(c),
    {
        match c {
            TermColor::Default => Color::rgb(0xc6, 0xd0, 0xf5),
            _ => Color::from_term(c),
        }
    }
}

} // verus!
