use vga_console::attribute::Attribute;
use vga_console::character::Character;
use vga_console::character::UNPRINTABLE_CHAR_VALUE;
use vga_console::color::Color;
use vga_console::color::ColorName;

const HUES: [ColorName; 8] = [
    ColorName::Black,
    ColorName::Blue,
    ColorName::Green,
    ColorName::Cyan,
    ColorName::Red,
    ColorName::Magenta,
    ColorName::Yellow,
    ColorName::White,
];

fn all_colors() -> Vec<Color> {
    let mut colors = Vec::new();
    for hue in HUES {
        colors.push(Color::Dim(hue));
    }
    for hue in HUES {
        colors.push(Color::Bright(hue));
    }
    colors
}

#[test]
fn test_color_as_byte() {
    for (code, color) in all_colors().into_iter().enumerate() {
        assert_eq!(color.as_byte(), code as u8);
    }
}

#[test]
fn test_color_from_byte_round_trip() {
    for color in all_colors() {
        assert_eq!(Color::from_byte(color.as_byte()), color);
    }
}

#[test]
fn test_attribute_as_byte() {
    let style = Attribute::new(Color::Dim(ColorName::Black), Color::Bright(ColorName::White));
    assert_eq!(style.as_byte(), 0x0f);
    let style = Attribute::new(Color::Bright(ColorName::Red), Color::Dim(ColorName::Cyan));
    assert_eq!(style.as_byte(), 0xc3);
}

#[test]
fn test_attribute_default() {
    let style = Attribute::default();
    assert_eq!(style.background, Color::Dim(ColorName::Black));
    assert_eq!(style.foreground, Color::Bright(ColorName::White));
    assert_eq!(style.as_byte(), 0x0f);
}

#[test]
fn test_attribute_pack_unpack_round_trip() {
    // Every one of the 16 x 16 legal (background, foreground) pairs survives
    // packing into a byte and unpacking.
    for background in all_colors() {
        for foreground in all_colors() {
            let style = Attribute::new(background, foreground);
            assert_eq!(Attribute::from_byte(style.as_byte()), style);
        }
    }
}

#[test]
fn test_character_keeps_printable_input() {
    let style = Attribute::default();
    for codepoint in 0x20..=0x7eu8 {
        let cell = Character::new(codepoint, style);
        assert_eq!(cell.codepoint, codepoint);
        assert_eq!(cell.attribute, 0x0f);
    }
}

#[test]
fn test_character_sanitizes_unprintable_input() {
    let style = Attribute::default();
    for codepoint in [0x00u8, 0x01, 0x09, 0x0d, 0x1f, 0x7f, 0x80, 0xff] {
        let cell = Character::new(codepoint, style);
        assert_eq!(cell.codepoint, UNPRINTABLE_CHAR_VALUE);
    }
}

#[test]
fn test_character_accepts_stray_newline() {
    // The codec itself keeps a newline; the writer intercepts newlines
    // before they reach it.
    let cell = Character::new(b'\n', Attribute::default());
    assert_eq!(cell.codepoint, b'\n');
}

#[test]
fn test_character_default() {
    let cell = Character::default();
    assert_eq!(cell.codepoint, 0);
    assert_eq!(cell.attribute, 0x0f);
    assert_eq!(u16::from(cell), 0x0f00);
}

#[test]
fn test_character_word_round_trip() {
    let style = Attribute::new(Color::Bright(ColorName::Green), Color::Dim(ColorName::Magenta));
    let cell = Character::new(b'Z', style);
    assert_eq!(Character::from(u16::from(cell)), cell);
    for word in [0x0000u16, 0x0f00, 0xa55a, 0xffff] {
        assert_eq!(u16::from(Character::from(word)), word);
    }
}

#[test]
fn test_character_word_layout() {
    // Codepoint in the low byte, packed style in the high byte.
    let cell = Character::new(b'a', Attribute::default());
    assert_eq!(u16::from(cell), 0x0f61);
    let cell = Character::from(0x2a41u16);
    assert_eq!(cell.codepoint, 0x41);
    assert_eq!(cell.attribute, 0x2a);
}

#[test]
fn test_character_from_byte_is_unsanitized() {
    let cell = Character::from(0x01u8);
    assert_eq!(cell.codepoint, 0x01);
    assert_eq!(cell.attribute, 0x0f);
}
