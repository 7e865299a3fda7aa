//! The sixteen fixed display colors and the packed attribute byte that selects
//! a foreground/background pair for one character cell.

use vstd::prelude::*;

verus! {

/// The sixteen fixed colors of the text-mode palette, in hardware order:
/// `Black` is index 0 and `White` is index 15.
#[derive(Debug, Clone, Copy, PartialEq, Eq, Structural)]
pub enum Color {
    Black,
    Blue,
    Green,
    Cyan,
    Red,
    Magenta,
    Brown,
    LightGray,
    DarkGray,
    LightBlue,
    LightGreen,
    LightCyan,
    LightRed,
    Pink,
    Yellow,
    White,
}

impl Color {
    /// The 4-bit palette index of this color.
    pub open spec fn spec_code(self) -> u8 {
        match self {
            Color::Black => 0,
            Color::Blue => 1,
            Color::Green => 2,
            Color::Cyan => 3,
            Color::Red => 4,
            Color::Magenta => 5,
            Color::Brown => 6,
            Color::LightGray => 7,
            Color::DarkGray => 8,
            Color::LightBlue => 9,
            Color::LightGreen => 10,
            Color::LightCyan => 11,
            Color::LightRed => 12,
            Color::Pink => 13,
            Color::Yellow => 14,
            Color::White => 15,
        }
    }

    /// The palette index of this color as an 8-bit value.
    pub fn code(self) -> (c: u8)
        ensures
            c == self.spec_code(),
    {
        match self {
            Color::Black => 0,
            Color::Blue => 1,
            Color::Green => 2,
            Color::Cyan => 3,
            Color::Red => 4,
            Color::Magenta => 5,
            Color::Brown => 6,
            Color::LightGray => 7,
            Color::DarkGray => 8,
            Color::LightBlue => 9,
            Color::LightGreen => 10,
            Color::LightCyan => 11,
            Color::LightRed => 12,
            Color::Pink => 13,
            Color::Yellow => 14,
            Color::White => 15,
        }
    }

    /// The color whose palette index is `c`.
    pub fn from_code(c: u8) -> (color: Color)
        requires
            c < 16,
        ensures
            color.spec_code() == c,
    {
        match c {
            0 => Color::Black,
            1 => Color::Blue,
            2 => Color::Green,
            3 => Color::Cyan,
            4 => Color::Red,
            5 => Color::Magenta,
            6 => Color::Brown,
            7 => Color::LightGray,
            8 => Color::DarkGray,
            9 => Color::LightBlue,
            10 => Color::LightGreen,
            11 => Color::LightCyan,
            12 => Color::LightRed,
            13 => Color::Pink,
            14 => Color::Yellow,
            _ => Color::White,
        }
    }
}

/// Every palette index is a 4-bit value.
pub proof fn lemma_color_code_bound(c: Color)
    ensures
        c.spec_code() < 16,
{
}

/// Two colors with the same palette index are the same color.
pub proof fn lemma_color_code_injective(a: Color, b: Color)
    requires
        a.spec_code() == b.spec_code(),
    ensures
        a == b,
{
}

/// The packed attribute byte of one character cell: the background color's
/// index in the high nibble, the foreground color's index in the low nibble.
#[derive(Debug, Clone, Copy, PartialEq, Eq, Structural)]
pub struct ColorCode(pub u8);

/// The attribute byte that selects `foreground` on `background`.
pub open spec fn spec_pack(foreground: Color, background: Color) -> u8 {
    (background.spec_code() << 4) | foreground.spec_code()
}

impl ColorCode {
    /// Packs a foreground/background pair into one attribute byte.
    pub fn new(foreground: Color, background: Color) -> (code: ColorCode)
        ensures
            code.0 == spec_pack(foreground, background),
    {
        ColorCode((background.code() << 4) | foreground.code())
    }

    /// The raw attribute byte.
    pub fn as_byte(self) -> (b: u8)
        ensures
            b == self.0,
    {
        self.0
    }

    /// The foreground color encoded in the low nibble.
    pub fn foreground(self) -> (c: Color)
        ensures
            c.spec_code() == self.0 & 0x0f,
    {
        proof {
            let b = self.0;
            assert((b & 0x0f) < 16) by (bit_vector);
        }
        Color::from_code(self.0 & 0x0f)
    }

    /// The background color encoded in the high nibble.
    pub fn background(self) -> (c: Color)
        ensures
            c.spec_code() == self.0 >> 4,
    {
        proof {
            let b = self.0;
            assert((b >> 4) < 16) by (bit_vector);
        }
        Color::from_code(self.0 >> 4)
    }
}

/// Law: packing a foreground/background pair is `(bg << 4) | fg`, which equals
/// `bg * 16 + fg`, and unpacking the nibbles of the packed byte recovers the
/// original pair exactly.
pub proof fn lemma_pack_unpack(foreground: Color, background: Color)
    ensures
        spec_pack(foreground, background) == background.spec_code() * 16 + foreground.spec_code(),
        spec_pack(foreground, background) & 0x0f == foreground.spec_code(),
        spec_pack(foreground, background) >> 4 == background.spec_code(),
{
    let f = foreground.spec_code();
    let b = background.spec_code();
    lemma_color_code_bound(foreground);
    lemma_color_code_bound(background);
    assert(((b << 4) | f) == b * 16 + f) by (bit_vector)
        requires
            f < 16 && b < 16,
    ;
    assert((((b << 4) | f) & 0x0f) == f) by (bit_vector)
        requires
            f < 16 && b < 16,
    ;
    assert((((b << 4) | f) >> 4) == b) by (bit_vector)
        requires
            f < 16 && b < 16,
    ;
}

} // verus!
