//! An ARGB colour with 8 bits per channel.

use vstd::prelude::*;

verus! {

/// A colour: alpha, red, green and blue, 8 bits each.
#[derive(Clone, Copy, PartialEq, Eq, Structural, Debug)]
pub struct Color {
    pub a: u8,
    pub r: u8,
    pub g: u8,
    pub b: u8,
}

impl Color {
    /// The colour with the given alpha and channels.
    pub fn from_argb(a: u8, r: u8, g: u8, b: u8) -> (c: Color)
        ensures
            c == (Color { a, r, g, b }),
    {
        Color { a, r, g, b }
    }

    /// The opaque colour with the given channels.
    pub fn from_rgb(r: u8, g: u8, b: u8) -> (c: Color)
        ensures
            c == (Color { a: 255, r, g, b }),
    {
        Color { a: 255, r, g, b }
    }

    /// The same channels with another alpha.
    pub fn with_a(self, a: u8) -> (c: Color)
        ensures
            c == (Color { a, ..self }),
    {
        Color { a, r: self.r, g: self.g, b: self.b }
    }

    /// Opaque black.
    pub fn black() -> (c: Color)
        ensures
            c == (Color { a: 255, r: 0, g: 0, b: 0 }),
    {
        Color { a: 255, r: 0, g: 0, b: 0 }
    }

    /// Opaque white.
    pub fn white() -> (c: Color)
        ensures
            c == (Color { a: 255, r: 255, g: 255, b: 255 }),
    {
        Color { a: 255, r: 255, g: 255, b: 255 }
    }
}

/// The opaque colour whose channels are the bytes of `rgb` (`0xRRGGBB`).
pub open spec fn opaque_rgb(rgb: u32) -> Color {
    Color {
        a: 255,
        r: ((rgb / 0x10000) % 0x100) as u8,
        g: ((rgb / 0x100) % 0x100) as u8,
        b: (rgb % 0x100) as u8,
    }
}

/// The colour whose channels are the bytes of `argb` (`0xAARRGGBB`).
pub open spec fn from_argb_u32(argb: u32) -> Color {
    Color {
        a: ((argb / 0x1000000) % 0x100) as u8,
        r: ((argb / 0x10000) % 0x100) as u8,
        g: ((argb / 0x100) % 0x100) as u8,
        b: (argb % 0x100) as u8,
    }
}

/// Builds `opaque_rgb(rgb)`.
pub fn color_from_rgb_u32(rgb: u32) -> (c: Color)
    ensures
        c == opaque_rgb(rgb),
{
    Color { a: 255, r: ((rgb / 0x10000) % 0x100) as u8, g: ((rgb / 0x100) % 0x100) as u8, b: (rgb % 0x100) as u8 }
}

/// Builds `from_argb_u32(argb)`.
pub fn color_from_argb_u32(argb: u32) -> (c: Color)
    ensures
        c == from_argb_u32(argb),
{
    Color {
        a: ((argb / 0x1000000) % 0x100) as u8,
        r: ((argb / 0x10000) % 0x100) as u8,
        g: ((argb / 0x100) % 0x100) as u8,
        b: (argb % 0x100) as u8,
    }
}

/// The upper-case hexadecimal digit of `d` (`d < 16`).
pub open spec fn hex_digit(d: int) -> char {
    if d < 10 {
        (d + 48) as char
    } else {
        (d + 55) as char
    }
}

/// `#RRGGBB` in upper case; alpha is left out.
pub open spec fn hex_of(c: Color) -> Seq<char> {
    seq![
        '#',
        hex_digit(c.r as int / 16),
        hex_digit(c.r as int % 16),
        hex_digit(c.g as int / 16),
        hex_digit(c.g as int % 16),
        hex_digit(c.b as int / 16),
        hex_digit(c.b as int % 16),
    ]
}

fn hex_digit_char(d: u8) -> (ch: char)
    requires
        d < 16,
    ensures
        ch == hex_digit(d as int),
{
    if d < 10 {
        (d + 48) as char
    } else {
        (d + 55) as char
    }
}

/// Formats the colour as `#RRGGBB` with upper-case digits.
pub fn color_to_hex(color: Color) -> (s: String)
    ensures
        s@ == hex_of(color),
{
    let mut s = String::new();
    crate::text::push_char(&mut s, '#');
    crate::text::push_char(&mut s, hex_digit_char(color.r / 16));
    crate::text::push_char(&mut s, hex_digit_char(color.r % 16));
    crate::text::push_char(&mut s, hex_digit_char(color.g / 16));
    crate::text::push_char(&mut s, hex_digit_char(color.g % 16));
    crate::text::push_char(&mut s, hex_digit_char(color.b / 16));
    crate::text::push_char(&mut s, hex_digit_char(color.b % 16));
    assert(s@ =~= hex_of(color));
    s
}

} // verus!
