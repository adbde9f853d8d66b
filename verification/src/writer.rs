//! The console writer: a cursor, a current style, and an owned text surface.
//! It turns a byte stream into positioned, styled cells, advancing the line
//! on a newline, wrapping when the cursor reaches the buffer width, and
//! scrolling the content up by one row when the last line overflows.

use crate::attribute::Attribute;
use crate::character::Character;
use crate::character::NEWLINE;
use crate::character::spec_sanitize;
use crate::color::Color;
use crate::grid::shifted_grid;
use crate::grid::uniform_grid;
use crate::vga::VGABuffer;
use crate::vga::VGA_BUFFER_HEIGHT;
use crate::vga::VGA_BUFFER_WIDTH;
use crate::vga::blank_word;
use vstd::prelude::*;
use vstd::string::StringSliceAdditionalSpecFns;

verus! {

/// The storage word that a write of `byte` under `style` stores.
pub open spec fn encoded_word(byte: u8, style: Attribute) -> u16 {
    (spec_sanitize(byte) + style.spec_byte() * 256) as u16
}

/// The grid with the cell at `(row, col)` replaced by the encoding of
/// `byte` under `style`.
pub open spec fn spec_put(
    g: Seq<Seq<u16>>,
    row: int,
    col: int,
    style: Attribute,
    byte: u8,
) -> Seq<Seq<u16>> {
    g.update(row, g[row].update(col, encoded_word(byte, style)))
}

/// One line advance: on the last row the content scrolls up one row and the
/// row stays put, otherwise the row advances; the column returns to zero
/// either way.
pub open spec fn spec_line_advance(g: Seq<Seq<u16>>, row: int, col: int) -> (
    Seq<Seq<u16>>,
    int,
    int,
) {
    if row >= VGA_BUFFER_HEIGHT - 1 {
        (shifted_grid(g, blank_word(), 1, 0), row, 0)
    } else {
        (g, row + 1, 0)
    }
}

/// The writer's transition for one input byte: a newline only advances the
/// line; any other byte first wraps if the column has reached the width,
/// then stores its encoded cell at the cursor and advances the column.
pub open spec fn spec_write_byte(
    g: Seq<Seq<u16>>,
    row: int,
    col: int,
    style: Attribute,
    byte: u8,
) -> (Seq<Seq<u16>>, int, int) {
    if byte == NEWLINE {
        spec_line_advance(g, row, col)
    } else {
        let wrapped = if col >= VGA_BUFFER_WIDTH {
            spec_line_advance(g, row, col)
        } else {
            (g, row, col)
        };
        (spec_put(wrapped.0, wrapped.1, wrapped.2, style, byte), wrapped.1, wrapped.2 + 1)
    }
}

/// The writer's state after processing `bytes` in order; each byte's effect
/// depends on the cursor position left by the previous one.
pub open spec fn spec_write_bytes(
    g: Seq<Seq<u16>>,
    row: int,
    col: int,
    style: Attribute,
    bytes: Seq<u8>,
) -> (Seq<Seq<u16>>, int, int)
    decreases bytes.len(),
{
    if bytes.len() == 0 {
        (g, row, col)
    } else {
        let stepped = spec_write_byte(g, row, col, style, bytes[0]);
        spec_write_bytes(stepped.0, stepped.1, stepped.2, style, bytes.subrange(
            1,
            bytes.len() as int,
        ))
    }
}

/// Decoding the cell stored for `byte` under `style` gives back the
/// sanitized codepoint and the packed style byte.
pub proof fn lemma_encoded_word_decodes(byte: u8, style: Attribute)
    ensures
        Character::spec_of_word(encoded_word(byte, style)) == (Character {
            codepoint: spec_sanitize(byte),
            attribute: style.spec_byte() as u8,
        }),
{
    crate::attribute::lemma_style_byte_in_range(style);
    let sanitized = spec_sanitize(byte) as int;
    let packed = style.spec_byte();
    assert((sanitized + packed * 256) % 256 == sanitized && (sanitized + packed * 256) / 256
        == packed) by (nonlinear_arith)
        requires
            0 <= sanitized < 256,
            0 <= packed < 256,
    ;
}

/// Law: a byte other than newline written while the cursor's column has
/// reached the buffer width first advances the line and then lands at
/// column 0 of the advanced position: the overflow wraps onto the next row
/// instead of being dropped.
pub proof fn lemma_write_wraps_at_width(
    g: Seq<Seq<u16>>,
    row: int,
    col: int,
    style: Attribute,
    byte: u8,
)
    requires
        byte != NEWLINE,
        col == VGA_BUFFER_WIDTH,
    ensures
        ({
            let advanced = spec_line_advance(g, row, col);
            let stepped = spec_write_byte(g, row, col, style, byte);
            &&& stepped.0 == spec_put(advanced.0, advanced.1, 0, style, byte)
            &&& stepped.1 == advanced.1
            &&& stepped.2 == 1
        }),
{
}

/// No cell of `g` holds the newline value as its codepoint.
pub open spec fn no_newline_stored(g: Seq<Seq<u16>>) -> bool {
    forall|r: int, c: int|
        0 <= r < g.len() && 0 <= c < g[r].len() ==> Character::spec_of_word(
            #[trigger] g[r][c],
        ).codepoint != NEWLINE
}

/// Law: although the codec accepts the newline value, the writer intercepts
/// newlines before encoding, so one write step never stores a newline
/// codepoint: every cell of the stepped grid is an old cell, the blank
/// cell, or the sanitized encoding of a non-newline byte.
pub proof fn lemma_step_stores_no_newline(
    g: Seq<Seq<u16>>,
    row: int,
    col: int,
    style: Attribute,
    byte: u8,
)
    requires
        no_newline_stored(g),
        crate::grid::rectangular(g, VGA_BUFFER_HEIGHT as nat, VGA_BUFFER_WIDTH as nat),
        0 <= row < VGA_BUFFER_HEIGHT,
        0 <= col <= VGA_BUFFER_WIDTH,
    ensures
        no_newline_stored(spec_write_byte(g, row, col, style, byte).0),
{
    let blank = blank_word();
    let advanced = spec_line_advance(g, row, col);
    let scrolled = shifted_grid(g, blank, 1, 0);
    assert(no_newline_stored(scrolled)) by {
        assert forall|r: int, c: int| 0 <= r < scrolled.len() && 0 <= c < scrolled[r].len() implies
            Character::spec_of_word(#[trigger] scrolled[r][c]).codepoint != NEWLINE by {
            assert(scrolled[r][c] == if 0 <= r + 1 < g.len() && c < g[r + 1].len() {
                g[r + 1][c]
            } else {
                blank
            });
        }
    }
    if byte != NEWLINE {
        lemma_encoded_word_decodes(byte, style);
        let wrapped = if col >= VGA_BUFFER_WIDTH {
            advanced
        } else {
            (g, row, col)
        };
        let put = spec_put(wrapped.0, wrapped.1, wrapped.2, style, byte);
        assert forall|r: int, c: int| 0 <= r < put.len() && 0 <= c < put[r].len() implies
            Character::spec_of_word(#[trigger] put[r][c]).codepoint != NEWLINE by {
            assert(put[r][c] == if r == wrapped.1 && c == wrapped.2 {
                encoded_word(byte, style)
            } else {
                wrapped.0[r][c]
            });
        }
    }
}

/// A blank surface stores no newline, so the guarantee above covers every
/// byte stream written from a cleared console onward.
pub proof fn lemma_blank_grid_stores_no_newline()
    ensures
        no_newline_stored(
            uniform_grid(VGA_BUFFER_HEIGHT as nat, VGA_BUFFER_WIDTH as nat, blank_word()),
        ),
{
    let blank = uniform_grid(VGA_BUFFER_HEIGHT as nat, VGA_BUFFER_WIDTH as nat, blank_word());
    assert forall|r: int, c: int| 0 <= r < blank.len() && 0 <= c < blank[r].len() implies
        Character::spec_of_word(#[trigger] blank[r][c]).codepoint != NEWLINE by {
        assert(blank[r][c] == blank_word());
    }
}

/// One write step keeps the grid rectangular and the cursor inside its
/// addressable rectangle: the row stays below the height and the column
/// never exceeds the width.
pub proof fn lemma_step_preserves_shape(
    g: Seq<Seq<u16>>,
    row: int,
    col: int,
    style: Attribute,
    byte: u8,
)
    requires
        crate::grid::rectangular(g, VGA_BUFFER_HEIGHT as nat, VGA_BUFFER_WIDTH as nat),
        0 <= row < VGA_BUFFER_HEIGHT,
        0 <= col <= VGA_BUFFER_WIDTH,
    ensures
        ({
            let stepped = spec_write_byte(g, row, col, style, byte);
            &&& crate::grid::rectangular(
                stepped.0,
                VGA_BUFFER_HEIGHT as nat,
                VGA_BUFFER_WIDTH as nat,
            )
            &&& 0 <= stepped.1 < VGA_BUFFER_HEIGHT
            &&& 0 <= stepped.2 <= VGA_BUFFER_WIDTH
        }),
{
}

/// Law: the writer stores no newline over any byte sequence.
pub proof fn lemma_write_stores_no_newline(
    g: Seq<Seq<u16>>,
    row: int,
    col: int,
    style: Attribute,
    bytes: Seq<u8>,
)
    requires
        no_newline_stored(g),
        crate::grid::rectangular(g, VGA_BUFFER_HEIGHT as nat, VGA_BUFFER_WIDTH as nat),
        0 <= row < VGA_BUFFER_HEIGHT,
        0 <= col <= VGA_BUFFER_WIDTH,
    ensures
        no_newline_stored(spec_write_bytes(g, row, col, style, bytes).0),
    decreases bytes.len(),
{
    if bytes.len() > 0 {
        let stepped = spec_write_byte(g, row, col, style, bytes[0]);
        lemma_step_stores_no_newline(g, row, col, style, bytes[0]);
        lemma_step_preserves_shape(g, row, col, style, bytes[0]);
        lemma_write_stores_no_newline(stepped.0, stepped.1, stepped.2, style, bytes.subrange(
            1,
            bytes.len() as int,
        ));
    }
}

/// The console writer.
pub struct Writer {
    buffer: VGABuffer,
    row: usize,
    col: usize,
    style: Attribute,
}

impl Writer {
    /// The surface content.
    pub closed spec fn grid(&self) -> Seq<Seq<u16>> {
        self.buffer@
    }

    /// The cursor's row.
    pub closed spec fn cursor_row(&self) -> int {
        self.row as int
    }

    /// The cursor's column; it may equal the width between writes, which
    /// forces a wrap on the next stored byte.
    pub closed spec fn cursor_col(&self) -> int {
        self.col as int
    }

    /// The style applied to subsequently written cells.
    pub closed spec fn spec_style(&self) -> Attribute {
        self.style
    }

    /// The owned surface.
    pub closed spec fn surface(&self) -> VGABuffer {
        self.buffer
    }

    pub open spec fn well_formed(&self) -> bool {
        &&& self.surface().well_formed()
        &&& self.grid() == self.surface()@
        &&& 0 <= self.cursor_row() < VGA_BUFFER_HEIGHT
        &&& 0 <= self.cursor_col() <= VGA_BUFFER_WIDTH
    }

    /// A writer over a blank surface, with the cursor at the origin and the
    /// default style.
    pub fn new() -> (result: Writer)
        ensures
            result.well_formed(),
            result.grid() == uniform_grid(
                VGA_BUFFER_HEIGHT as nat,
                VGA_BUFFER_WIDTH as nat,
                blank_word(),
            ),
            result.cursor_row() == 0,
            result.cursor_col() == 0,
            result.spec_style() == Attribute::spec_default(),
    {
        Writer { buffer: VGABuffer::new(), row: 0, col: 0, style: Attribute::default() }
    }

    /// Clears the surface and resets the cursor to `(0, 0)`; the style is
    /// kept.
    pub fn clear(&mut self)
        requires
            old(self).well_formed(),
        ensures
            final(self).well_formed(),
            final(self).grid() == uniform_grid(
                VGA_BUFFER_HEIGHT as nat,
                VGA_BUFFER_WIDTH as nat,
                blank_word(),
            ),
            final(self).cursor_row() == 0,
            final(self).cursor_col() == 0,
            final(self).spec_style() == old(self).spec_style(),
    {
        self.buffer.clear();
        self.row = 0;
        self.col = 0;
    }

    /// Advances to a new line, scrolling on the last row.
    pub fn new_line(&mut self)
        requires
            old(self).well_formed(),
        ensures
            final(self).well_formed(),
            final(self).spec_style() == old(self).spec_style(),
            ({
                let advanced = spec_line_advance(
                    old(self).grid(),
                    old(self).cursor_row(),
                    old(self).cursor_col(),
                );
                &&& final(self).grid() == advanced.0
                &&& final(self).cursor_row() == advanced.1
                &&& final(self).cursor_col() == advanced.2
            }),
    {
        if self.row >= VGA_BUFFER_HEIGHT - 1 {
            self.buffer.move_up(1);
            self.col = 0;
            return ;
        }
        self.row = self.row + 1;
        self.col = 0;
    }

    /// Stores one encoded byte at `position` under the current style.
    fn write_byte_at(&mut self, value: u8, position: (usize, usize))
        requires
            old(self).well_formed(),
            position.0 < VGA_BUFFER_HEIGHT,
            position.1 < VGA_BUFFER_WIDTH,
        ensures
            final(self).well_formed(),
            final(self).spec_style() == old(self).spec_style(),
            final(self).cursor_row() == old(self).cursor_row(),
            final(self).cursor_col() == old(self).cursor_col(),
            final(self).grid() == spec_put(
                old(self).grid(),
                position.0 as int,
                position.1 as int,
                old(self).spec_style(),
                value,
            ),
    {
        let cell = Character::new(value, self.style);
        self.buffer.set(position, cell);
    }

    /// Processes one input byte.
    fn write_byte(&mut self, value: u8)
        requires
            old(self).well_formed(),
        ensures
            final(self).well_formed(),
            final(self).spec_style() == old(self).spec_style(),
            ({
                let stepped = spec_write_byte(
                    old(self).grid(),
                    old(self).cursor_row(),
                    old(self).cursor_col(),
                    old(self).spec_style(),
                    value,
                );
                &&& final(self).grid() == stepped.0
                &&& final(self).cursor_row() == stepped.1
                &&& final(self).cursor_col() == stepped.2
            }),
    {
        if value == NEWLINE {
            self.new_line();
            return ;
        }
        if self.col >= VGA_BUFFER_WIDTH {
            self.new_line();
        }
        self.write_byte_at(value, (self.row, self.col));
        self.col = self.col + 1;
    }

    /// Processes each byte of `bytes` in sequence.
    pub fn write_bytes(&mut self, bytes: &[u8])
        requires
            old(self).well_formed(),
        ensures
            final(self).well_formed(),
            final(self).spec_style() == old(self).spec_style(),
            ({
                let written = spec_write_bytes(
                    old(self).grid(),
                    old(self).cursor_row(),
                    old(self).cursor_col(),
                    old(self).spec_style(),
                    bytes@,
                );
                &&& final(self).grid() == written.0
                &&& final(self).cursor_row() == written.1
                &&& final(self).cursor_col() == written.2
            }),
    {
        proof {
            assert(bytes@.subrange(0, bytes@.len() as int) =~= bytes@);
        }
        let mut k: usize = 0;
        while k < bytes.len()
            invariant
                self.well_formed(),
                self.spec_style() == old(self).spec_style(),
                k <= bytes@.len(),
                spec_write_bytes(
                    old(self).grid(),
                    old(self).cursor_row(),
                    old(self).cursor_col(),
                    old(self).spec_style(),
                    bytes@,
                ) == spec_write_bytes(
                    self.grid(),
                    self.cursor_row(),
                    self.cursor_col(),
                    self.spec_style(),
                    bytes@.subrange(k as int, bytes@.len() as int),
                ),
            decreases bytes@.len() - k,
        {
            proof {
                assert(bytes@.subrange(k as int, bytes@.len() as int).subrange(
                    1,
                    bytes@.len() - k,
                ) =~= bytes@.subrange(k as int + 1, bytes@.len() as int));
            }
            let value = bytes[k];
            self.write_byte(value);
            k = k + 1;
        }
    }

    /// Writes the bytes of `string`.
    pub fn write_str(&mut self, string: &str)
        requires
            old(self).well_formed(),
        ensures
            final(self).well_formed(),
            final(self).spec_style() == old(self).spec_style(),
            ({
                let written = spec_write_bytes(
                    old(self).grid(),
                    old(self).cursor_row(),
                    old(self).cursor_col(),
                    old(self).spec_style(),
                    string.spec_bytes(),
                );
                &&& final(self).grid() == written.0
                &&& final(self).cursor_row() == written.1
                &&& final(self).cursor_col() == written.2
            }),
    {
        self.write_bytes(string.as_bytes());
    }

    /// Selects the style applied to subsequent writes; already-written cells
    /// keep theirs.
    pub fn set_style(&mut self, background: Color, foreground: Color)
        requires
            old(self).well_formed(),
        ensures
            final(self).well_formed(),
            final(self).spec_style() == (Attribute { background, foreground }),
            final(self).grid() == old(self).grid(),
            final(self).cursor_row() == old(self).cursor_row(),
            final(self).cursor_col() == old(self).cursor_col(),
    {
        self.style = Attribute::new(background, foreground);
    }

    /// Restores the default style.
    pub fn reset_style(&mut self)
        requires
            old(self).well_formed(),
        ensures
            final(self).well_formed(),
            final(self).spec_style() == Attribute::spec_default(),
            final(self).grid() == old(self).grid(),
            final(self).cursor_row() == old(self).cursor_row(),
            final(self).cursor_col() == old(self).cursor_col(),
    {
        self.style = Attribute::default();
    }

    /// Replaces only the background of the current style.
    pub fn set_background(&mut self, background: Color)
        requires
            old(self).well_formed(),
        ensures
            final(self).well_formed(),
            final(self).spec_style() == (Attribute {
                background,
                foreground: old(self).spec_style().foreground,
            }),
            final(self).grid() == old(self).grid(),
            final(self).cursor_row() == old(self).cursor_row(),
            final(self).cursor_col() == old(self).cursor_col(),
    {
        let Attribute { background: _, foreground } = self.style;
        self.set_style(background, foreground)
    }

    /// Replaces only the foreground of the current style.
    pub fn set_foreground(&mut self, foreground: Color)
        requires
            old(self).well_formed(),
        ensures
            final(self).well_formed(),
            final(self).spec_style() == (Attribute {
                background: old(self).spec_style().background,
                foreground,
            }),
            final(self).grid() == old(self).grid(),
            final(self).cursor_row() == old(self).cursor_row(),
            final(self).cursor_col() == old(self).cursor_col(),
    {
        let Attribute { background, foreground: _ } = self.style;
        self.set_style(background, foreground)
    }

    /// The cursor position (row first).
    pub fn cursor(&self) -> (result: (usize, usize))
        ensures
            result.0 == self.cursor_row(),
            result.1 == self.cursor_col(),
    {
        (self.row, self.col)
    }

    /// The style applied to subsequent writes.
    pub fn style(&self) -> (result: Attribute)
        ensures
            result == self.spec_style(),
    {
        self.style
    }

    /// A snapshot of the surface's codepoints, row by row.
    pub fn get_text(&self) -> (result: Vec<Vec<u8>>)
        requires
            self.well_formed(),
        ensures
            result@.len() == VGA_BUFFER_HEIGHT,
            forall|r: int|
                0 <= r < VGA_BUFFER_HEIGHT ==> (#[trigger] result@[r])@.len()
                    == VGA_BUFFER_WIDTH,
            forall|r: int, c: int|
                0 <= r < VGA_BUFFER_HEIGHT && 0 <= c < VGA_BUFFER_WIDTH ==> result@[r]@[c]
                    == Character::spec_of_word(self.grid()[r][c]).codepoint,
    {
        self.buffer.get_text()
    }
}

} // verus!
