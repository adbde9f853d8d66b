//! The style palette: eight base hues, each at a dim or a bright intensity.

use vstd::prelude::*;

verus! {

/// One of the eight base hues of the palette.
#[derive(Clone, Copy, Debug, PartialEq, Eq, Structural)]
pub enum ColorName {
    Black,
    Blue,
    Green,
    Cyan,
    Red,
    Magenta,
    Yellow,
    White,
}

/// A palette hue together with its intensity.
#[derive(Clone, Copy, Debug, PartialEq, Eq, Structural)]
pub enum Color {
    Dim(ColorName),
    Bright(ColorName),
}

impl ColorName {
    /// The hue's code, always in `0..8`.
    pub open spec fn spec_value(self) -> int {
        match self {
            ColorName::Black => 0,
            ColorName::Blue => 1,
            ColorName::Green => 2,
            ColorName::Cyan => 3,
            ColorName::Red => 4,
            ColorName::Magenta => 5,
            ColorName::Yellow => 6,
            ColorName::White => 7,
        }
    }

    /// The hue whose code is `value`.
    pub open spec fn spec_of_value(value: int) -> ColorName {
        if value == 0 {
            ColorName::Black
        } else if value == 1 {
            ColorName::Blue
        } else if value == 2 {
            ColorName::Green
        } else if value == 3 {
            ColorName::Cyan
        } else if value == 4 {
            ColorName::Red
        } else if value == 5 {
            ColorName::Magenta
        } else if value == 6 {
            ColorName::Yellow
        } else {
            ColorName::White
        }
    }

    /// The hue's code as a byte.
    pub fn value(self) -> (result: u8)
        ensures
            result == self.spec_value(),
    {
        match self {
            ColorName::Black => 0,
            ColorName::Blue => 1,
            ColorName::Green => 2,
            ColorName::Cyan => 3,
            ColorName::Red => 4,
            ColorName::Magenta => 5,
            ColorName::Yellow => 6,
            ColorName::White => 7,
        }
    }

    /// The hue whose code is `value`.
    pub fn of_value(value: u8) -> (result: ColorName)
        requires
            value < 8,
        ensures
            result == ColorName::spec_of_value(value as int),
    {
        if value == 0 {
            ColorName::Black
        } else if value == 1 {
            ColorName::Blue
        } else if value == 2 {
            ColorName::Green
        } else if value == 3 {
            ColorName::Cyan
        } else if value == 4 {
            ColorName::Red
        } else if value == 5 {
            ColorName::Magenta
        } else if value == 6 {
            ColorName::Yellow
        } else {
            ColorName::White
        }
    }
}

/// Recovering a hue from its code returns the original hue.
pub proof fn lemma_color_name_round_trip(name: ColorName)
    ensures
        ColorName::spec_of_value(name.spec_value()) == name,
{
}

impl Color {
    /// The color's packed nibble: bits 0 to 2 hold the hue, bit 3 the bright
    /// flag; always in `0..16`.
    pub open spec fn spec_byte(self) -> int {
        match self {
            Color::Dim(name) => name.spec_value(),
            Color::Bright(name) => name.spec_value() + 8,
        }
    }

    /// The color whose packed nibble is `bits`.
    pub open spec fn spec_of_byte(bits: int) -> Color {
        if bits >= 8 {
            Color::Bright(ColorName::spec_of_value(bits - 8))
        } else {
            Color::Dim(ColorName::spec_of_value(bits))
        }
    }

    /// The color's packed nibble as a byte.
    pub fn as_byte(&self) -> (result: u8)
        ensures
            result == self.spec_byte(),
            result < 16,
    {
        match self {
            Color::Dim(name) => name.value(),
            Color::Bright(name) => {
                let value = name.value();
                proof {
                    assert((value | 8) == value + 8) by (bit_vector)
                        requires
                            value < 8,
                    ;
                }
                value | 8
            },
        }
    }

    /// The color whose packed nibble is `bits`.
    pub fn from_byte(bits: u8) -> (result: Color)
        requires
            bits < 16,
        ensures
            result == Color::spec_of_byte(bits as int),
    {
        if bits >= 8 {
            Color::Bright(ColorName::of_value(bits - 8))
        } else {
            Color::Dim(ColorName::of_value(bits))
        }
    }
}

/// Recovering a color from its packed nibble returns the original color.
pub proof fn lemma_color_round_trip(color: Color)
    ensures
        Color::spec_of_byte(color.spec_byte()) == color,
{
    match color {
        Color::Dim(name) => lemma_color_name_round_trip(name),
        Color::Bright(name) => lemma_color_name_round_trip(name),
    }
}

} // verus!
