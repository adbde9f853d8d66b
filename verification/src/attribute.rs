//! The style model: a (background, foreground) color pair and its packed
//! one-byte attribute encoding. The high nibble holds the background, the low
//! nibble the foreground, each with the hue in bits 0 to 2 and the bright
//! flag in bit 3.

use crate::color::Color;
use crate::color::ColorName;
use crate::color::lemma_color_round_trip;
use vstd::prelude::*;

verus! {

/// A background/foreground color selection.
#[derive(Clone, Copy, Debug, PartialEq, Eq, Structural)]
pub struct Attribute {
    pub background: Color,
    pub foreground: Color,
}

impl Attribute {
    /// The packed attribute byte: background in the high nibble, foreground
    /// in the low nibble.
    pub open spec fn spec_byte(self) -> int {
        self.background.spec_byte() * 16 + self.foreground.spec_byte()
    }

    /// The style whose packed attribute byte is `byte`.
    pub open spec fn spec_of_byte(byte: int) -> Attribute {
        Attribute {
            background: Color::spec_of_byte(byte / 16),
            foreground: Color::spec_of_byte(byte % 16),
        }
    }

    /// The default style: a dim black background under a bright white
    /// foreground.
    pub open spec fn spec_default() -> Attribute {
        Attribute {
            background: Color::Dim(ColorName::Black),
            foreground: Color::Bright(ColorName::White),
        }
    }

    pub fn new(background: Color, foreground: Color) -> (result: Attribute)
        ensures
            result == (Attribute { background, foreground }),
    {
        Attribute { background, foreground }
    }

    /// Packs the style into its attribute byte.
    pub fn as_byte(self) -> (result: u8)
        ensures
            result == self.spec_byte(),
    {
        let background = self.background.as_byte();
        let foreground = self.foreground.as_byte();
        proof {
            assert((background << 4) | foreground == background * 16 + foreground)
                by (bit_vector)
                requires
                    background < 16 && foreground < 16,
            ;
        }
        (background << 4) | foreground
    }

    /// Unpacks an attribute byte into the style it encodes.
    pub fn from_byte(byte: u8) -> (result: Attribute)
        ensures
            result == Attribute::spec_of_byte(byte as int),
    {
        let background = byte >> 4;
        let foreground = byte & 0x0f;
        proof {
            assert(background == byte as int / 16 && background < 16) by (bit_vector)
                requires
                    background == byte >> 4,
            ;
            assert(foreground == byte as int % 16 && foreground < 16) by (bit_vector)
                requires
                    foreground == byte & 0x0f,
            ;
        }
        Attribute { background: Color::from_byte(background), foreground: Color::from_byte(foreground) }
    }
}

impl Default for Attribute {
    /// The default style: dim black background, bright white foreground.
    fn default() -> (result: Self)
        ensures
            result == Attribute::spec_default(),
    {
        Attribute::new(Color::Dim(ColorName::Black), Color::Bright(ColorName::White))
    }
}

/// A packed attribute byte always fits in one byte: each nibble is in
/// `0..16`.
pub proof fn lemma_style_byte_in_range(style: Attribute)
    ensures
        0 <= style.spec_byte() < 256,
{
}

/// Law: packing a style into its attribute byte and unpacking that byte
/// returns the original (background, foreground) pair, for every legal
/// combination of colors.
pub proof fn lemma_style_round_trip(style: Attribute)
    ensures
        Attribute::spec_of_byte(style.spec_byte()) == style,
{
    let background = style.background.spec_byte();
    let foreground = style.foreground.spec_byte();
    assert(0 <= background < 16 && 0 <= foreground < 16);
    assert((background * 16 + foreground) / 16 == background) by (nonlinear_arith)
        requires
            0 <= background < 16 && 0 <= foreground < 16,
    ;
    assert((background * 16 + foreground) % 16 == foreground) by (nonlinear_arith)
        requires
            0 <= background < 16 && 0 <= foreground < 16,
    ;
    lemma_color_round_trip(style.background);
    lemma_color_round_trip(style.foreground);
}

} // verus!
