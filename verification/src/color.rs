//! The hardware palette and the attribute byte built from it.

use vstd::prelude::*;

verus! {

/// VGA color palette, in the order of the hardware's palette entries.
#[derive(Debug, Clone, Copy, PartialEq, Eq, Structural)]
pub enum Color {
    Black,
    Blue,
    Green,
    Cyan,
    Red,
    Magenta,
    Brown,
    LightGray,
    DarkGray,
    LightBlue,
    LightGreen,
    LightCyan,
    LightRed,
    Pink,
    Yellow,
    Write,
}

impl Color {
    /// The palette entry that the hardware knows this color by.
    pub open spec fn spec_palette_index(self) -> u8 {
        match self {
            Color::Black => 0,
            Color::Blue => 1,
            Color::Green => 2,
            Color::Cyan => 3,
            Color::Red => 4,
            Color::Magenta => 5,
            Color::Brown => 6,
            Color::LightGray => 7,
            Color::DarkGray => 8,
            Color::LightBlue => 9,
            Color::LightGreen => 10,
            Color::LightCyan => 11,
            Color::LightRed => 12,
            Color::Pink => 13,
            Color::Yellow => 14,
            Color::Write => 15,
        }
    }

    /// The palette entry that the hardware knows this color by.
    #[verifier::when_used_as_spec(spec_palette_index)]
    pub fn palette_index(self) -> (index: u8)
        ensures
            index == self.spec_palette_index(),
            index < 16,
    {
        self as u8
    }
}

/// VGA color code used to describe foreground and background color together:
/// the background's palette entry in the high four bits, the foreground's in
/// the low four.
#[derive(Debug, Clone, Copy, PartialEq, Eq, Structural)]
pub struct ColorCode(pub u8);

impl ColorCode {
    /// The attribute byte of a foreground on a background.
    pub open spec fn spec_new(foreground: Color, background: Color) -> ColorCode {
        ColorCode((16 * background.palette_index() + foreground.palette_index()) as u8)
    }

    /// The four high bits of the attribute byte.
    pub open spec fn high_nibble(self) -> u8 {
        self.0 >> 4
    }

    /// The four low bits of the attribute byte.
    pub open spec fn low_nibble(self) -> u8 {
        self.0 & 0x0f
    }

    /// Create a ColorCode from foreground and background color.
    pub fn new(foreground: Color, background: Color) -> (code: ColorCode)
        ensures
            code == Self::spec_new(foreground, background),
            code.0 == 16 * background.palette_index() + foreground.palette_index(),
            code.high_nibble() == background.palette_index(),
            code.low_nibble() == foreground.palette_index(),
    {
        let high: u8 = background.palette_index();
        let low: u8 = foreground.palette_index();
        assert((high << 4 | low) == 16 * high + low && (high << 4 | low) >> 4 == high && (high << 4
            | low) & 0x0f == low) by (bit_vector)
            requires
                high < 16,
                low < 16,
        ;
        ColorCode(high << 4 | low)
    }
}

} // verus!
