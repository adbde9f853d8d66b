//! The cell codec: one addressable character slot holds a codepoint byte and
//! a packed style byte, stored together as a 16-bit word with the codepoint
//! in the low byte. Unprintable input degrades to a visible placeholder
//! glyph instead of failing.

use crate::attribute::Attribute;
use vstd::prelude::*;

verus! {

/// The placeholder glyph stored for bytes outside the printable set.
pub const UNPRINTABLE_CHAR_VALUE: u8 = 0xfe;

/// The byte that requests a line advance; it is intercepted by the writer
/// and never stored in a cell by it.
pub const NEWLINE: u8 = 0x0a;

/// The sanitized codepoint actually stored for input byte `codepoint`:
/// printable ASCII and the newline value pass through, every other byte
/// degrades to the unprintable placeholder. A stray newline is kept as is;
/// the writer intercepts newlines before they reach the codec, and its
/// contract shows that it never stores one.
pub open spec fn spec_sanitize(codepoint: u8) -> u8 {
    if 0x20 <= codepoint <= 0x7e || codepoint == NEWLINE {
        codepoint
    } else {
        UNPRINTABLE_CHAR_VALUE
    }
}

/// One grid cell: a codepoint and a packed style byte.
#[derive(Clone, Copy, Debug, PartialEq, Eq, Structural)]
pub struct Character {
    pub codepoint: u8,
    pub attribute: u8,
}

impl Character {
    /// The cell's 16-bit storage word: codepoint in bits 0 to 7, style in
    /// bits 8 to 15.
    pub open spec fn spec_word(self) -> u16 {
        (self.codepoint + self.attribute * 256) as u16
    }

    /// The cell stored in the 16-bit word `word`.
    pub open spec fn spec_of_word(word: u16) -> Character {
        Character { codepoint: (word as int % 256) as u8, attribute: (word as int / 256) as u8 }
    }

    /// The default cell: a null codepoint under the default style.
    pub open spec fn spec_default() -> Character {
        Character { codepoint: 0, attribute: Attribute::spec_default().spec_byte() as u8 }
    }

    /// Encodes an input byte under `style`, sanitizing unprintable input.
    pub fn new(codepoint: u8, style: Attribute) -> (result: Self)
        ensures
            result.codepoint == spec_sanitize(codepoint),
            result.attribute == style.spec_byte(),
    {
        let value = if (0x20 <= codepoint && codepoint <= 0x7e) || codepoint == NEWLINE {
            codepoint
        } else {
            UNPRINTABLE_CHAR_VALUE
        };
        Character { codepoint: value, attribute: style.as_byte() }
    }
}

impl Default for Character {
    /// The default cell: a null codepoint under the default style.
    fn default() -> (result: Self)
        ensures
            result == Character::spec_default(),
    {
        let style = Attribute::default();
        Character { codepoint: 0, attribute: style.as_byte() }
    }
}

impl From<u16> for Character {
    /// Unpacks a storage word into its cell.
    fn from(value: u16) -> (result: Self) {
        let codepoint = value as u8;
        let attribute = (value >> 8) as u8;
        proof {
            assert(codepoint == value as int % 256) by (bit_vector)
                requires
                    codepoint == value as u8,
            ;
            assert(attribute == value as int / 256) by (bit_vector)
                requires
                    attribute == (value >> 8) as u8,
            ;
        }
        Character { codepoint, attribute }
    }
}

impl vstd::std_specs::convert::FromSpecImpl<u16> for Character {
    open spec fn obeys_from_spec() -> bool {
        true
    }

    open spec fn from_spec(value: u16) -> Character {
        Character::spec_of_word(value)
    }
}

impl From<u8> for Character {
    /// A cell holding `value` as its codepoint, unsanitized, under the
    /// default style.
    fn from(value: u8) -> (result: Self) {
        let style = Attribute::default();
        Character { codepoint: value, attribute: style.as_byte() }
    }
}

impl vstd::std_specs::convert::FromSpecImpl<u8> for Character {
    open spec fn obeys_from_spec() -> bool {
        true
    }

    open spec fn from_spec(value: u8) -> Character {
        Character { codepoint: value, attribute: Attribute::spec_default().spec_byte() as u8 }
    }
}

impl From<Character> for u16 {
    /// Packs a cell into its storage word.
    fn from(cell: Character) -> (result: u16) {
        let codepoint = cell.codepoint as u16;
        let attribute = cell.attribute as u16;
        proof {
            assert(codepoint | (attribute << 8) == (codepoint + attribute * 256) as u16)
                by (bit_vector)
                requires
                    codepoint < 256 && attribute < 256,
            ;
        }
        codepoint | (attribute << 8)
    }
}

impl vstd::std_specs::convert::FromSpecImpl<Character> for u16 {
    open spec fn obeys_from_spec() -> bool {
        true
    }

    open spec fn from_spec(cell: Character) -> u16 {
        cell.spec_word()
    }
}

/// Law: the codec is lossless; unpacking a cell's storage word returns the
/// cell.
pub proof fn lemma_cell_of_word_round_trip(cell: Character)
    ensures
        Character::spec_of_word(cell.spec_word()) == cell,
{
    let word = cell.codepoint + cell.attribute * 256;
    assert(word % 256 == cell.codepoint && word / 256 == cell.attribute) by (nonlinear_arith)
        requires
            word == cell.codepoint + cell.attribute * 256,
            0 <= cell.codepoint < 256,
            0 <= cell.attribute < 256,
    ;
}

/// Law: the codec is lossless in the other direction; packing the cell read
/// from a storage word returns the word.
pub proof fn lemma_word_of_cell_round_trip(word: u16)
    ensures
        Character::spec_of_word(word).spec_word() == word,
{
}

} // verus!
