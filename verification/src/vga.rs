//! The fixed 80 x 25 text surface. Each storage cell is a 16-bit word with
//! the codepoint in bits 0 to 7 and the packed style in bits 8 to 15, so the
//! grid can double as a view over memory-mapped display hardware; here it is
//! held as ordinary owned storage.

use crate::character::Character;
use crate::grid::GridBuffer;
use crate::grid::lemma_shift_beyond_height_clears;
use crate::grid::rectangular;
use crate::grid::shifted_grid;
use crate::grid::uniform_grid;
use vstd::prelude::*;

verus! {

pub const VGA_BUFFER_WIDTH: usize = 80;

pub const VGA_BUFFER_HEIGHT: usize = 25;

/// The storage word of the default blank cell that backfills vacated cells.
pub open spec fn blank_word() -> u16 {
    Character::spec_default().spec_word()
}

/// The text surface: a grid of cell words with the fixed display dimensions.
pub struct VGABuffer {
    buffer: GridBuffer<u16, VGA_BUFFER_WIDTH, VGA_BUFFER_HEIGHT>,
}

impl View for VGABuffer {
    type V = Seq<Seq<u16>>;

    closed spec fn view(&self) -> Seq<Seq<u16>> {
        self.buffer@
    }
}

impl VGABuffer {
    /// The underlying grid has the display dimensions and backfills with the
    /// default blank cell.
    pub closed spec fn inv(&self) -> bool {
        &&& self.buffer.well_formed()
        &&& self.buffer.default_value() == blank_word()
    }

    pub open spec fn well_formed(&self) -> bool {
        &&& rectangular(self@, VGA_BUFFER_HEIGHT as nat, VGA_BUFFER_WIDTH as nat)
        &&& self.inv()
    }

    /// A surface with every cell set to the default blank cell.
    pub fn new() -> (result: VGABuffer)
        ensures
            result.well_formed(),
            result@ == uniform_grid(
                VGA_BUFFER_HEIGHT as nat,
                VGA_BUFFER_WIDTH as nat,
                blank_word(),
            ),
    {
        let blank = Character::default();
        let word = u16::from(blank);
        VGABuffer { buffer: GridBuffer::new_with_default(word) }
    }

    /// Stores `cell`'s word at `position` (row first).
    pub fn set(&mut self, position: (usize, usize), cell: Character)
        requires
            old(self).well_formed(),
            position.0 < VGA_BUFFER_HEIGHT,
            position.1 < VGA_BUFFER_WIDTH,
        ensures
            final(self).well_formed(),
            final(self)@ == old(self)@.update(
                position.0 as int,
                old(self)@[position.0 as int].update(position.1 as int, cell.spec_word()),
            ),
    {
        let word = u16::from(cell);
        self.buffer.write(position.0, position.1, word);
    }

    /// Scrolls the content up by `count` rows; vacated rows at the bottom
    /// become blank. Any magnitude is valid: a count past the height empties
    /// the surface.
    pub fn move_up(&mut self, count: usize)
        requires
            old(self).well_formed(),
        ensures
            final(self).well_formed(),
            final(self)@ == shifted_grid(old(self)@, blank_word(), count as int, 0),
    {
        let amount = if count > VGA_BUFFER_HEIGHT {
            VGA_BUFFER_HEIGHT
        } else {
            count
        };
        self.buffer.shift(amount as isize, 0);
        proof {
            if count > VGA_BUFFER_HEIGHT {
                lemma_shift_beyond_height_clears(
                    old(self)@,
                    blank_word(),
                    VGA_BUFFER_HEIGHT as nat,
                    VGA_BUFFER_WIDTH as nat,
                    count as int,
                    0,
                );
            }
        }
    }

    /// Resets every cell to the default blank cell.
    pub fn clear(&mut self)
        requires
            old(self).well_formed(),
        ensures
            final(self).well_formed(),
            final(self)@ == uniform_grid(
                VGA_BUFFER_HEIGHT as nat,
                VGA_BUFFER_WIDTH as nat,
                blank_word(),
            ),
    {
        self.buffer.clear();
    }

    /// A snapshot of the surface's codepoints, row by row, for external
    /// inspection.
    pub fn get_text(&self) -> (result: Vec<Vec<u8>>)
        requires
            self.well_formed(),
        ensures
            result@.len() == VGA_BUFFER_HEIGHT,
            forall|r: int|
                0 <= r < VGA_BUFFER_HEIGHT ==> (#[trigger] result@[r])@.len()
                    == VGA_BUFFER_WIDTH,
            forall|r: int, c: int|
                0 <= r < VGA_BUFFER_HEIGHT && 0 <= c < VGA_BUFFER_WIDTH ==> result@[r]@[c]
                    == Character::spec_of_word(self@[r][c]).codepoint,
    {
        let mut text: Vec<Vec<u8>> = Vec::new();
        let mut r: usize = 0;
        while r < VGA_BUFFER_HEIGHT
            invariant
                self.well_formed(),
                r <= VGA_BUFFER_HEIGHT,
                text@.len() == r,
                forall|i: int| 0 <= i < r ==> (#[trigger] text@[i])@.len() == VGA_BUFFER_WIDTH,
                forall|i: int, j: int|
                    0 <= i < r && 0 <= j < VGA_BUFFER_WIDTH ==> (#[trigger] text@[i]@[j])
                        == Character::spec_of_word(self@[i][j]).codepoint,
            decreases VGA_BUFFER_HEIGHT - r,
        {
            let mut line: Vec<u8> = Vec::new();
            let mut c: usize = 0;
            while c < VGA_BUFFER_WIDTH
                invariant
                    self.well_formed(),
                    r < VGA_BUFFER_HEIGHT,
                    c <= VGA_BUFFER_WIDTH,
                    line@.len() == c,
                    forall|j: int|
                        0 <= j < c ==> line@[j] == Character::spec_of_word(
                            self@[r as int][j],
                        ).codepoint,
                decreases VGA_BUFFER_WIDTH - c,
            {
                let word = self.buffer.read(r, c);
                let cell = Character::from(word);
                line.push(cell.codepoint);
                c = c + 1;
            }
            text.push(line);
            r = r + 1;
        }
        text
    }
}

} // verus!
