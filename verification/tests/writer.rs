use vga_console::attribute::Attribute;
use vga_console::character::UNPRINTABLE_CHAR_VALUE;
use vga_console::color::Color;
use vga_console::color::ColorName;
use vga_console::vga::VGABuffer;
use vga_console::vga::VGA_BUFFER_HEIGHT;
use vga_console::vga::VGA_BUFFER_WIDTH;
use vga_console::writer::Writer;

fn padded(line: &str) -> Vec<u8> {
    let mut bytes = line.as_bytes().to_vec();
    bytes.resize(VGA_BUFFER_WIDTH, 0);
    bytes
}

#[test]
fn test_write_two_lines() {
    // Two newline-terminated lines land on rows 0 and 1 exactly, with every
    // trailing cell still blank.
    let mut writer = Writer::new();
    writer.clear();
    writer.write_str("Some 42 chars\nSome more text\n");
    let text = writer.get_text();
    assert_eq!(text[0], padded("Some 42 chars"));
    assert_eq!(text[1], padded("Some more text"));
    for row in 2..VGA_BUFFER_HEIGHT {
        assert_eq!(text[row], padded(""));
    }
    assert_eq!(writer.cursor(), (2, 0));
}

#[test]
fn test_long_line_wraps() {
    // A line longer than the width continues on the next row with no byte
    // dropped or reordered.
    let mut writer = Writer::new();
    let mut line = String::new();
    for k in 0..VGA_BUFFER_WIDTH + 5 {
        line.push((b'A' + (k % 26) as u8) as char);
    }
    writer.write_str(&line);
    let text = writer.get_text();
    assert_eq!(text[0], line.as_bytes()[..VGA_BUFFER_WIDTH].to_vec());
    assert_eq!(text[1], padded(std::str::from_utf8(&line.as_bytes()[VGA_BUFFER_WIDTH..]).unwrap()));
    assert_eq!(writer.cursor(), (1, 5));
}

#[test]
fn test_cursor_column_may_reach_width_between_writes() {
    let mut writer = Writer::new();
    let line = "x".repeat(VGA_BUFFER_WIDTH);
    writer.write_str(&line);
    assert_eq!(writer.cursor(), (0, VGA_BUFFER_WIDTH));
    writer.write_str("y");
    assert_eq!(writer.cursor(), (1, 1));
    let text = writer.get_text();
    assert_eq!(text[1][0], b'y');
}

#[test]
fn test_overflow_scrolls() {
    // Filling every row and writing one more line scrolls the first line
    // off and puts the new line on the last row, leaving the other rows
    // intact.
    let mut writer = Writer::new();
    for k in 0..VGA_BUFFER_HEIGHT {
        writer.write_str(&format!("line {}\n", k));
    }
    writer.write_str("one more");
    let text = writer.get_text();
    for row in 0..VGA_BUFFER_HEIGHT - 1 {
        assert_eq!(text[row], padded(&format!("line {}", row + 1)));
    }
    assert_eq!(text[VGA_BUFFER_HEIGHT - 1], padded("one more"));
}

#[test]
fn test_new_line_advances_row() {
    let mut writer = Writer::new();
    writer.write_str("ab");
    writer.new_line();
    assert_eq!(writer.cursor(), (1, 0));
    writer.write_str("c");
    let text = writer.get_text();
    assert_eq!(text[0], padded("ab"));
    assert_eq!(text[1], padded("c"));
}

#[test]
fn test_new_line_on_last_row_scrolls() {
    let mut writer = Writer::new();
    writer.write_str("top");
    for _ in 0..VGA_BUFFER_HEIGHT - 1 {
        writer.new_line();
    }
    assert_eq!(writer.cursor(), (VGA_BUFFER_HEIGHT - 1, 0));
    writer.write_str("bottom");
    writer.new_line();
    assert_eq!(writer.cursor(), (VGA_BUFFER_HEIGHT - 1, 0));
    let text = writer.get_text();
    // "top" scrolled from row 0 off the top edge is gone; "bottom" moved up.
    assert_eq!(text[VGA_BUFFER_HEIGHT - 2], padded("bottom"));
    assert_eq!(text[VGA_BUFFER_HEIGHT - 1], padded(""));
}

#[test]
fn test_clear_resets_cells_and_cursor() {
    let mut writer = Writer::new();
    writer.write_str("some text\nmore text");
    writer.clear();
    assert_eq!(writer.cursor(), (0, 0));
    let text = writer.get_text();
    for row in 0..VGA_BUFFER_HEIGHT {
        assert_eq!(text[row], padded(""));
    }
}

#[test]
fn test_unprintable_bytes_degrade_to_placeholder() {
    let mut writer = Writer::new();
    writer.write_bytes(&[b'o', b'k', 0x01, 0x7f]);
    let text = writer.get_text();
    assert_eq!(text[0][0], b'o');
    assert_eq!(text[0][1], b'k');
    assert_eq!(text[0][2], UNPRINTABLE_CHAR_VALUE);
    assert_eq!(text[0][3], UNPRINTABLE_CHAR_VALUE);
}

#[test]
fn test_set_style() {
    let mut writer = Writer::new();
    writer.set_style(Color::Bright(ColorName::Blue), Color::Dim(ColorName::Yellow));
    let style = writer.style();
    assert_eq!(style.background, Color::Bright(ColorName::Blue));
    assert_eq!(style.foreground, Color::Dim(ColorName::Yellow));
}

#[test]
fn test_set_background_keeps_foreground() {
    let mut writer = Writer::new();
    writer.set_style(Color::Dim(ColorName::Green), Color::Bright(ColorName::Cyan));
    writer.set_background(Color::Bright(ColorName::Red));
    let style = writer.style();
    assert_eq!(style.background, Color::Bright(ColorName::Red));
    assert_eq!(style.foreground, Color::Bright(ColorName::Cyan));
}

#[test]
fn test_set_foreground_keeps_background() {
    let mut writer = Writer::new();
    writer.set_style(Color::Dim(ColorName::Green), Color::Bright(ColorName::Cyan));
    writer.set_foreground(Color::Dim(ColorName::Magenta));
    let style = writer.style();
    assert_eq!(style.background, Color::Dim(ColorName::Green));
    assert_eq!(style.foreground, Color::Dim(ColorName::Magenta));
}

#[test]
fn test_reset_style() {
    let mut writer = Writer::new();
    writer.set_style(Color::Bright(ColorName::Blue), Color::Dim(ColorName::Yellow));
    writer.reset_style();
    assert_eq!(writer.style(), Attribute::default());
}

#[test]
fn test_style_does_not_move_cursor() {
    let mut writer = Writer::new();
    writer.write_str("ab");
    writer.set_style(Color::Bright(ColorName::Blue), Color::Dim(ColorName::Yellow));
    assert_eq!(writer.cursor(), (0, 2));
}

#[test]
fn test_vga_buffer_set_and_get_text() {
    let mut buffer = VGABuffer::new();
    buffer.set((3, 4), vga_console::character::Character::new(b'Q', Attribute::default()));
    let text = buffer.get_text();
    assert_eq!(text.len(), VGA_BUFFER_HEIGHT);
    assert_eq!(text[3].len(), VGA_BUFFER_WIDTH);
    assert_eq!(text[3][4], b'Q');
    assert_eq!(text[0][0], 0);
}

#[test]
fn test_vga_buffer_move_up() {
    let mut buffer = VGABuffer::new();
    buffer.set((1, 0), vga_console::character::Character::new(b'm', Attribute::default()));
    buffer.move_up(1);
    let text = buffer.get_text();
    assert_eq!(text[0][0], b'm');
    assert_eq!(text[1][0], 0);
    buffer.move_up(1000);
    let text = buffer.get_text();
    assert_eq!(text[0][0], 0);
}

#[test]
fn test_vga_buffer_clear() {
    let mut buffer = VGABuffer::new();
    buffer.set((0, 0), vga_console::character::Character::new(b'x', Attribute::default()));
    buffer.clear();
    let text = buffer.get_text();
    for row in 0..VGA_BUFFER_HEIGHT {
        for col in 0..VGA_BUFFER_WIDTH {
            assert_eq!(text[row][col], 0);
        }
    }
}
