//! A generic fixed-width, fixed-height rectangular store of cells supporting
//! bounded two-dimensional shifts. Shifting is the scrolling primitive: cells
//! vacated by a shift are backfilled with the buffer's default value, and
//! cells pushed past the edge are discarded.

use vstd::prelude::*;

verus! {

/// The row of `cols` cells all holding `value`.
pub open spec fn uniform_row<T>(cols: nat, value: T) -> Seq<T> {
    Seq::new(cols, |c: int| value)
}

/// The grid every cell of which holds `value`, with `rows` rows of `cols`
/// columns each.
pub open spec fn uniform_grid<T>(rows: nat, cols: nat, value: T) -> Seq<Seq<T>> {
    Seq::new(rows, |r: int| uniform_row(cols, value))
}

/// `rows` rows of `cols` columns each.
pub open spec fn rectangular<T>(g: Seq<Seq<T>>, rows: nat, cols: nat) -> bool {
    &&& g.len() == rows
    &&& forall|r: int| 0 <= r < rows ==> (#[trigger] g[r]).len() == cols
}

/// A shift amount clipped to `[-bound, bound]`; shifting by more than the
/// buffer's extent empties the axis just as shifting by exactly the extent
/// does, so clipping does not change the result.
pub open spec fn spec_clip(count: int, bound: int) -> int {
    if count > bound {
        bound
    } else if count < -bound {
        -bound
    } else {
        count
    }
}

/// The source coordinate that the cell at `pos` is pulled from when content
/// is displaced by `count` (row amount first): `source = destination - shift`.
pub open spec fn spec_source_pos(pos: (int, int), count: (int, int)) -> (int, int) {
    (pos.0 - count.0, pos.1 - count.1)
}

/// One row after its content moves `horizontal` cells toward column 0
/// (a negative amount moves it toward the right edge); vacated cells take
/// `value` and cells pushed past the edge are discarded.
pub open spec fn shifted_row<T>(row: Seq<T>, value: T, horizontal: int) -> Seq<T> {
    Seq::new(row.len(), |c: int|
        if 0 <= c + horizontal < row.len() {
            row[c + horizontal]
        } else {
            value
        })
}

/// The grid after its content moves `vertical` rows toward the top and
/// `horizontal` columns toward the left (negative amounts move it down or to
/// the right); vacated cells take `value` and cells pushed past an edge are
/// discarded.
pub open spec fn shifted_grid<T>(g: Seq<Seq<T>>, value: T, vertical: int, horizontal: int) -> Seq<
    Seq<T>,
> {
    Seq::new(g.len(), |r: int|
        if 0 <= r + vertical < g.len() {
            shifted_row(g[r + vertical], value, horizontal)
        } else {
            uniform_row(g[r].len(), value)
        })
}

/// Law: clipping a shift amount to a non-negative extent is idempotent;
/// clipping an already-clipped amount is a no-op.
pub proof fn lemma_clip_idempotent(count: int, bound: nat)
    ensures
        spec_clip(spec_clip(count, bound as int), bound as int) == spec_clip(count, bound as int),
{
}

/// Law: a vertical shift past the grid's height produces the same result as
/// a full clear of that axis, the shift by exactly the height; with no
/// horizontal amount this empties the whole grid.
pub proof fn lemma_shift_beyond_height_clears<T>(
    g: Seq<Seq<T>>,
    value: T,
    rows: nat,
    cols: nat,
    vertical: int,
    horizontal: int,
)
    requires
        rectangular(g, rows, cols),
        vertical > rows || vertical < -(rows as int),
    ensures
        shifted_grid(g, value, vertical, horizontal) == shifted_grid(
            g,
            value,
            rows as int,
            horizontal,
        ),
        shifted_grid(g, value, vertical, 0) == uniform_grid(rows, cols, value),
{
    assert(shifted_grid(g, value, vertical, horizontal) =~~= shifted_grid(
        g,
        value,
        rows as int,
        horizontal,
    ));
    assert(shifted_grid(g, value, vertical, 0) =~~= uniform_grid(rows, cols, value));
}

/// Law: a horizontal shift past the grid's width produces the same result as
/// a full clear of that axis, the shift by exactly the width; with no
/// vertical amount this empties the whole grid.
pub proof fn lemma_shift_beyond_width_clears<T>(
    g: Seq<Seq<T>>,
    value: T,
    rows: nat,
    cols: nat,
    vertical: int,
    horizontal: int,
)
    requires
        rectangular(g, rows, cols),
        horizontal > cols || horizontal < -(cols as int),
    ensures
        shifted_grid(g, value, vertical, horizontal) == shifted_grid(
            g,
            value,
            vertical,
            cols as int,
        ),
        shifted_grid(g, value, 0, horizontal) == uniform_grid(rows, cols, value),
{
    assert(shifted_grid(g, value, vertical, horizontal) =~~= shifted_grid(
        g,
        value,
        vertical,
        cols as int,
    ));
    assert(shifted_grid(g, value, 0, horizontal) =~~= uniform_grid(rows, cols, value));
}

/// Law: shifting by an amount and then by its negation restores every cell
/// whose content survived the first shift, that is, every cell whose
/// destination under the first shift stayed inside the grid; content shifted
/// past an edge is lost.
pub proof fn lemma_shift_round_trip<T>(
    g: Seq<Seq<T>>,
    value: T,
    rows: nat,
    cols: nat,
    vertical: int,
    horizontal: int,
)
    requires
        rectangular(g, rows, cols),
    ensures
        forall|r: int, c: int|
            0 <= r < rows && 0 <= c < cols && 0 <= r - vertical < rows && 0 <= c - horizontal
                < cols ==> shifted_grid(
                shifted_grid(g, value, vertical, horizontal),
                value,
                -vertical,
                -horizontal,
            )[r][c] == g[r][c],
{
}

/// Law: the coordinate displacement of `spec_source_pos` is its own inverse
/// under negation of the shift amounts.
pub proof fn lemma_source_pos_round_trip(pos: (int, int), count: (int, int))
    ensures
        spec_source_pos(spec_source_pos(pos, count), (-count.0, -count.1)) == pos,
{
}

/// Clipping the shift amounts to the grid's extents does not change the
/// shifted grid: every amount past an extent empties that axis exactly as a
/// shift by the extent itself does.
pub proof fn lemma_shifted_grid_clip<T>(
    g: Seq<Seq<T>>,
    value: T,
    rows: nat,
    cols: nat,
    vertical: int,
    horizontal: int,
)
    requires
        rectangular(g, rows, cols),
    ensures
        shifted_grid(g, value, spec_clip(vertical, rows as int), spec_clip(horizontal, cols as int))
            == shifted_grid(g, value, vertical, horizontal),
{
    assert(shifted_grid(
        g,
        value,
        spec_clip(vertical, rows as int),
        spec_clip(horizontal, cols as int),
    ) =~~= shifted_grid(g, value, vertical, horizontal));
}

/// A combined shift equals a vertical pass followed by a horizontal pass:
/// each pass fully resolves before the next begins, so the axes do not
/// interact.
pub proof fn lemma_shifted_grid_compose<T>(
    g: Seq<Seq<T>>,
    value: T,
    rows: nat,
    cols: nat,
    vertical: int,
    horizontal: int,
)
    requires
        rectangular(g, rows, cols),
    ensures
        shifted_grid(shifted_grid(g, value, vertical, 0), value, 0, horizontal) == shifted_grid(
            g,
            value,
            vertical,
            horizontal,
        ),
{
    assert(shifted_grid(shifted_grid(g, value, vertical, 0), value, 0, horizontal) =~~= shifted_grid(
        g,
        value,
        vertical,
        horizontal,
    ));
}

/// A rectangular array of `WIDTH x HEIGHT` cells addressed by `(row, column)`
/// with row 0 at the top and column 0 at the left. The dimensions and the
/// default value used to backfill vacated cells are fixed at construction.
pub struct GridBuffer<T, const WIDTH: usize, const HEIGHT: usize> {
    content: Vec<Vec<T>>,
    fill: T,
}

impl<T, const WIDTH: usize, const HEIGHT: usize> View for GridBuffer<T, WIDTH, HEIGHT> {
    type V = Seq<Seq<T>>;

    closed spec fn view(&self) -> Seq<Seq<T>> {
        self.content@.map_values(|row: Vec<T>| row@)
    }
}

impl<T: Copy, const WIDTH: usize, const HEIGHT: usize> GridBuffer<T, WIDTH, HEIGHT> {
    /// The value that backfills cells vacated by a shift, fixed at
    /// construction.
    pub closed spec fn default_value(&self) -> T {
        self.fill
    }

    /// The storage is rectangular with the advertised dimensions, and the
    /// dimensions are small enough for signed coordinate arithmetic.
    pub open spec fn well_formed(&self) -> bool {
        &&& rectangular(self@, HEIGHT as nat, WIDTH as nat)
        &&& WIDTH <= isize::MAX as usize
        &&& HEIGHT <= isize::MAX as usize
    }

    /// Constructs a buffer with every cell set to `value`; `value` is also the
    /// default that later backfills vacated cells.
    pub fn new_with_default(value: T) -> (result: Self)
        requires
            WIDTH <= isize::MAX as usize,
            HEIGHT <= isize::MAX as usize,
        ensures
            result.well_formed(),
            result.default_value() == value,
            result@ == uniform_grid(HEIGHT as nat, WIDTH as nat, value),
    {
        let mut content: Vec<Vec<T>> = Vec::new();
        let mut r: usize = 0;
        while r < HEIGHT
            invariant
                r <= HEIGHT,
                content@.len() == r,
                forall|i: int| 0 <= i < r ==> (#[trigger] content@[i])@ =~= Seq::new(
                    WIDTH as nat,
                    |c: int| value,
                ),
            decreases HEIGHT - r,
        {
            let mut row: Vec<T> = Vec::new();
            let mut c: usize = 0;
            while c < WIDTH
                invariant
                    c <= WIDTH,
                    row@.len() == c,
                    forall|j: int| 0 <= j < c ==> row@[j] == value,
                decreases WIDTH - c,
            {
                row.push(value);
                c = c + 1;
            }
            assert(row@ =~= Seq::new(WIDTH as nat, |c: int| value));
            content.push(row);
            r = r + 1;
        }
        let result = GridBuffer { content, fill: value };
        proof {
            assert(result@ =~~= uniform_grid(HEIGHT as nat, WIDTH as nat, value));
        }
        result
    }

    /// Direct cell access; the fixed dimensions bound the coordinates.
    pub fn read(&self, row: usize, col: usize) -> (result: T)
        requires
            self.well_formed(),
            row < HEIGHT,
            col < WIDTH,
        ensures
            result == self@[row as int][col as int],
    {
        proof {
            assert(self@[row as int] == self.content@[row as int]@);
        }
        self.content[row][col]
    }

    /// Replaces the cell at `(row, col)` with `value`.
    pub fn write(&mut self, row: usize, col: usize, value: T)
        requires
            old(self).well_formed(),
            row < HEIGHT,
            col < WIDTH,
        ensures
            final(self).well_formed(),
            final(self).default_value() == old(self).default_value(),
            final(self)@ == old(self)@.update(
                row as int,
                old(self)@[row as int].update(col as int, value),
            ),
    {
        proof {
            assert(self@[row as int] == self.content@[row as int]@);
        }
        self.content[row][col] = value;
        proof {
            assert(self@ =~~= old(self)@.update(
                row as int,
                old(self)@[row as int].update(col as int, value),
            ));
        }
    }

    /// Clips a shift amount to `[-bound, bound]`; amounts of any magnitude
    /// are valid and larger ones are equivalent to emptying the axis.
    pub fn clip_shift(count: isize, bound: usize) -> (result: isize)
        requires
            bound <= isize::MAX as usize,
        ensures
            result as int == spec_clip(count as int, bound as int),
    {
        let limit = bound as isize;
        let count = if count > limit {
            limit
        } else {
            count
        };
        let count = if count < -limit {
            -limit
        } else {
            count
        };
        count
    }

    /// Displaces a single coordinate against the shift direction:
    /// `source = destination - shift`.
    pub fn shift_pos(pos: isize, count: isize) -> (result: isize)
        requires
            isize::MIN <= pos as int - count as int <= isize::MAX,
        ensures
            result as int == pos as int - count as int,
    {
        pos - count
    }

    /// The pre-shift source coordinate of the cell at `pos` when content is
    /// displaced by `count` (row amount first, column amount second).
    pub fn get_source_pos(pos: (usize, usize), count: (isize, isize)) -> (result: (usize, usize))
        requires
            pos.0 <= isize::MAX as usize,
            pos.1 <= isize::MAX as usize,
            0 <= pos.0 as int - count.0 as int <= isize::MAX,
            0 <= pos.1 as int - count.1 as int <= isize::MAX,
        ensures
            (result.0 as int, result.1 as int) == spec_source_pos(
                (pos.0 as int, pos.1 as int),
                (count.0 as int, count.1 as int),
            ),
    {
        let row = Self::shift_pos(pos.0 as isize, count.0);
        let col = Self::shift_pos(pos.1 as isize, count.1);
        (row as usize, col as usize)
    }

    /// The destination range `[result.0, result.1)` that is copied from a
    /// pre-shift source when content is displaced by `count` toward higher
    /// indices along an axis of extent `bound`; the ranges below and above it
    /// are backfilled with the default value.
    pub fn get_shift_ranges(count: isize, bound: usize) -> (result: (usize, usize))
        requires
            bound <= isize::MAX as usize,
        ensures
            ({
                let clipped = spec_clip(count as int, bound as int);
                &&& result.0 as int == if clipped > 0 {
                    clipped
                } else {
                    0
                }
                &&& result.1 as int == if clipped < 0 {
                    bound + clipped
                } else {
                    bound as int
                }
                &&& result.0 <= result.1 <= bound
            }),
    {
        let clipped = Self::clip_shift(count, bound);
        if clipped > 0 {
            (clipped as usize, bound)
        } else {
            (0, (bound as isize + clipped) as usize)
        }
    }

    /// Replaces the row at `dst` with a copy of the row at `src`.
    fn copy_row(&mut self, dst: usize, src: usize)
        requires
            old(self).well_formed(),
            dst < HEIGHT,
            src < HEIGHT,
        ensures
            final(self).well_formed(),
            final(self).default_value() == old(self).default_value(),
            final(self)@ == old(self)@.update(dst as int, old(self)@[src as int]),
    {
        let mut c: usize = 0;
        while c < WIDTH
            invariant
                old(self).well_formed(),
                self.well_formed(),
                self.default_value() == old(self).default_value(),
                c <= WIDTH,
                dst < HEIGHT,
                src < HEIGHT,
                forall|i: int| 0 <= i < HEIGHT && i != dst ==> self@[i] == old(self)@[i],
                forall|j: int| 0 <= j < c ==> self@[dst as int][j] == old(self)@[src as int][j],
                forall|j: int| c <= j < WIDTH ==> self@[dst as int][j] == old(self)@[dst as int][j],
            decreases WIDTH - c,
        {
            let value = self.read(src, c);
            self.write(dst, c, value);
            c = c + 1;
        }
        proof {
            assert(self@[dst as int] =~= old(self)@[src as int]);
            assert(self@ =~= old(self)@.update(dst as int, old(self)@[src as int]));
        }
    }

    /// Resets the row at `row` to the default value.
    fn fill_row(&mut self, row: usize)
        requires
            old(self).well_formed(),
            row < HEIGHT,
        ensures
            final(self).well_formed(),
            final(self).default_value() == old(self).default_value(),
            final(self)@ == old(self)@.update(
                row as int,
                uniform_row(WIDTH as nat, old(self).default_value()),
            ),
    {
        let value = self.fill;
        let mut c: usize = 0;
        while c < WIDTH
            invariant
                old(self).well_formed(),
                self.well_formed(),
                self.default_value() == old(self).default_value(),
                value == old(self).default_value(),
                c <= WIDTH,
                row < HEIGHT,
                forall|i: int| 0 <= i < HEIGHT && i != row ==> self@[i] == old(self)@[i],
                forall|j: int| 0 <= j < c ==> self@[row as int][j] == value,
                forall|j: int| c <= j < WIDTH ==> self@[row as int][j] == old(self)@[row as int][j],
            decreases WIDTH - c,
        {
            self.write(row, c, value);
            c = c + 1;
        }
        proof {
            assert(self@[row as int] =~= uniform_row(WIDTH as nat, old(self).default_value()));
            assert(self@ =~= old(self)@.update(
                row as int,
                uniform_row(WIDTH as nat, old(self).default_value()),
            ));
        }
    }

    /// Moves content by `count` rows toward higher row indices (the source of
    /// each copied row is `destination - count`); the public `shift` negates
    /// its amount before this pass so that a positive public amount moves
    /// content toward the top. To keep source rows intact while the copy is
    /// in place, destinations are visited in decreasing order for a positive
    /// displacement and in increasing order otherwise.
    pub fn shift_vertical(&mut self, count: isize)
        requires
            old(self).well_formed(),
        ensures
            final(self).well_formed(),
            final(self).default_value() == old(self).default_value(),
            final(self)@ == shifted_grid(
                old(self)@,
                old(self).default_value(),
                -(count as int),
                0,
            ),
    {
        let clipped = Self::clip_shift(count, HEIGHT);
        let (lo, hi) = Self::get_shift_ranges(count, HEIGHT);
        if clipped > 0 {
            let mut r: usize = hi;
            while r > lo
                invariant
                    old(self).well_formed(),
                    self.well_formed(),
                    self.default_value() == old(self).default_value(),
                    lo <= r <= hi,
                    hi == HEIGHT,
                    0 < clipped as int == lo as int == spec_clip(count as int, HEIGHT as int),
                    forall|i: int| 0 <= i < r ==> self@[i] == old(self)@[i],
                    forall|i: int|
                        r <= i < HEIGHT ==> self@[i] == old(self)@[i - clipped as int],
                decreases r,
            {
                r = r - 1;
                let src = Self::get_source_pos((r, 0), (clipped, 0));
                self.copy_row(r, src.0);
            }
            let mut r: usize = 0;
            while r < lo
                invariant
                    old(self).well_formed(),
                    self.well_formed(),
                    self.default_value() == old(self).default_value(),
                    r <= lo,
                    0 < clipped as int == lo as int == spec_clip(count as int, HEIGHT as int),
                    forall|i: int|
                        0 <= i < r ==> self@[i] == uniform_row(
                            WIDTH as nat,
                            old(self).default_value(),
                        ),
                    forall|i: int| r <= i < lo ==> self@[i] == old(self)@[i],
                    forall|i: int|
                        lo <= i < HEIGHT ==> self@[i] == old(self)@[i - clipped as int],
                decreases lo - r,
            {
                self.fill_row(r);
                r = r + 1;
            }
        } else {
            let mut r: usize = 0;
            while r < hi
                invariant
                    old(self).well_formed(),
                    self.well_formed(),
                    self.default_value() == old(self).default_value(),
                    r <= hi <= HEIGHT,
                    clipped <= 0,
                    clipped as int == spec_clip(count as int, HEIGHT as int),
                    hi as int == HEIGHT + clipped as int,
                    forall|i: int| 0 <= i < r ==> self@[i] == old(self)@[i - clipped as int],
                    forall|i: int| r <= i < HEIGHT ==> self@[i] == old(self)@[i],
                decreases hi - r,
            {
                let src = Self::get_source_pos((r, 0), (clipped, 0));
                self.copy_row(r, src.0);
                r = r + 1;
            }
            while r < HEIGHT
                invariant
                    old(self).well_formed(),
                    self.well_formed(),
                    self.default_value() == old(self).default_value(),
                    hi <= r <= HEIGHT,
                    clipped <= 0,
                    clipped as int == spec_clip(count as int, HEIGHT as int),
                    hi as int == HEIGHT + clipped as int,
                    forall|i: int| 0 <= i < hi ==> self@[i] == old(self)@[i - clipped as int],
                    forall|i: int|
                        hi <= i < r ==> self@[i] == uniform_row(
                            WIDTH as nat,
                            old(self).default_value(),
                        ),
                    forall|i: int| r <= i < HEIGHT ==> self@[i] == old(self)@[i],
                decreases HEIGHT - r,
            {
                self.fill_row(r);
                r = r + 1;
            }
        }
        proof {
            assert(self@ =~~= shifted_grid(
                old(self)@,
                old(self).default_value(),
                -(count as int),
                0,
            ));
        }
    }

    /// Moves the content of one row by `count` cells toward higher column
    /// indices, with the same traversal-direction rule as the vertical pass.
    fn shift_row(&mut self, row: usize, count: isize)
        requires
            old(self).well_formed(),
            row < HEIGHT,
        ensures
            final(self).well_formed(),
            final(self).default_value() == old(self).default_value(),
            final(self)@ == old(self)@.update(
                row as int,
                shifted_row(
                    old(self)@[row as int],
                    old(self).default_value(),
                    -(count as int),
                ),
            ),
    {
        let clipped = Self::clip_shift(count, WIDTH);
        let (lo, hi) = Self::get_shift_ranges(count, WIDTH);
        if clipped > 0 {
            let mut c: usize = hi;
            while c > lo
                invariant
                    old(self).well_formed(),
                    self.well_formed(),
                    self.default_value() == old(self).default_value(),
                    row < HEIGHT,
                    lo <= c <= hi,
                    hi == WIDTH,
                    0 < clipped as int == lo as int == spec_clip(count as int, WIDTH as int),
                    forall|i: int| 0 <= i < HEIGHT && i != row ==> self@[i] == old(self)@[i],
                    forall|j: int| 0 <= j < c ==> self@[row as int][j] == old(self)@[row as int][j],
                    forall|j: int|
                        c <= j < WIDTH ==> self@[row as int][j] == old(self)@[row as int][j
                            - clipped as int],
                decreases c,
            {
                c = c - 1;
                let src = Self::get_source_pos((row, c), (0, clipped));
                let value = self.read(row, src.1);
                self.write(row, c, value);
            }
            let mut c: usize = 0;
            while c < lo
                invariant
                    old(self).well_formed(),
                    self.well_formed(),
                    self.default_value() == old(self).default_value(),
                    row < HEIGHT,
                    c <= lo,
                    0 < clipped as int == lo as int == spec_clip(count as int, WIDTH as int),
                    forall|i: int| 0 <= i < HEIGHT && i != row ==> self@[i] == old(self)@[i],
                    forall|j: int|
                        0 <= j < c ==> self@[row as int][j] == old(self).default_value(),
                    forall|j: int| c <= j < lo ==> self@[row as int][j] == old(self)@[row as int][j],
                    forall|j: int|
                        lo <= j < WIDTH ==> self@[row as int][j] == old(self)@[row as int][j
                            - clipped as int],
                decreases lo - c,
            {
                let value = self.fill;
                self.write(row, c, value);
                c = c + 1;
            }
        } else {
            let mut c: usize = 0;
            while c < hi
                invariant
                    old(self).well_formed(),
                    self.well_formed(),
                    self.default_value() == old(self).default_value(),
                    row < HEIGHT,
                    c <= hi <= WIDTH,
                    clipped <= 0,
                    clipped as int == spec_clip(count as int, WIDTH as int),
                    hi as int == WIDTH + clipped as int,
                    forall|i: int| 0 <= i < HEIGHT && i != row ==> self@[i] == old(self)@[i],
                    forall|j: int|
                        0 <= j < c ==> self@[row as int][j] == old(self)@[row as int][j
                            - clipped as int],
                    forall|j: int| c <= j < WIDTH ==> self@[row as int][j] == old(self)@[row as int][j],
                decreases hi - c,
            {
                let src = Self::get_source_pos((row, c), (0, clipped));
                let value = self.read(row, src.1);
                self.write(row, c, value);
                c = c + 1;
            }
            while c < WIDTH
                invariant
                    old(self).well_formed(),
                    self.well_formed(),
                    self.default_value() == old(self).default_value(),
                    row < HEIGHT,
                    hi <= c <= WIDTH,
                    clipped <= 0,
                    clipped as int == spec_clip(count as int, WIDTH as int),
                    hi as int == WIDTH + clipped as int,
                    forall|i: int| 0 <= i < HEIGHT && i != row ==> self@[i] == old(self)@[i],
                    forall|j: int|
                        0 <= j < hi ==> self@[row as int][j] == old(self)@[row as int][j
                            - clipped as int],
                    forall|j: int|
                        hi <= j < c ==> self@[row as int][j] == old(self).default_value(),
                    forall|j: int| c <= j < WIDTH ==> self@[row as int][j] == old(self)@[row as int][j],
                decreases WIDTH - c,
            {
                let value = self.fill;
                self.write(row, c, value);
                c = c + 1;
            }
        }
        proof {
            assert(self@[row as int] =~= shifted_row(
                old(self)@[row as int],
                old(self).default_value(),
                -(count as int),
            ));
            assert(self@ =~= old(self)@.update(
                row as int,
                shifted_row(
                    old(self)@[row as int],
                    old(self).default_value(),
                    -(count as int),
                ),
            ));
        }
    }

    /// Moves content by `count` columns toward higher column indices, one row
    /// at a time; the rows do not interact.
    pub fn shift_horizontal(&mut self, count: isize)
        requires
            old(self).well_formed(),
        ensures
            final(self).well_formed(),
            final(self).default_value() == old(self).default_value(),
            final(self)@ == shifted_grid(
                old(self)@,
                old(self).default_value(),
                0,
                -(count as int),
            ),
    {
        let mut r: usize = 0;
        while r < HEIGHT
            invariant
                old(self).well_formed(),
                self.well_formed(),
                self.default_value() == old(self).default_value(),
                r <= HEIGHT,
                forall|i: int|
                    0 <= i < r ==> self@[i] == shifted_row(
                        old(self)@[i],
                        old(self).default_value(),
                        -(count as int),
                    ),
                forall|i: int| r <= i < HEIGHT ==> self@[i] == old(self)@[i],
            decreases HEIGHT - r,
        {
            self.shift_row(r, count);
            r = r + 1;
        }
        proof {
            assert(self@ =~~= shifted_grid(
                old(self)@,
                old(self).default_value(),
                0,
                -(count as int),
            ));
        }
    }

    /// Moves content by `vertical` rows and `horizontal` columns; positive
    /// amounts move content toward the top and the left edge. Cells vacated
    /// by the shift are reset to the default value and cells shifted beyond
    /// the buffer's edge are discarded; amounts of any magnitude are valid.
    pub fn shift(&mut self, vertical: isize, horizontal: isize)
        requires
            old(self).well_formed(),
        ensures
            final(self).well_formed(),
            final(self).default_value() == old(self).default_value(),
            final(self)@ == shifted_grid(
                old(self)@,
                old(self).default_value(),
                vertical as int,
                horizontal as int,
            ),
    {
        let v = Self::clip_shift(vertical, HEIGHT);
        let h = Self::clip_shift(horizontal, WIDTH);
        self.shift_vertical(-v);
        self.shift_horizontal(-h);
        proof {
            lemma_shifted_grid_compose(
                old(self)@,
                old(self).default_value(),
                HEIGHT as nat,
                WIDTH as nat,
                v as int,
                h as int,
            );
            lemma_shifted_grid_clip(
                old(self)@,
                old(self).default_value(),
                HEIGHT as nat,
                WIDTH as nat,
                vertical as int,
                horizontal as int,
            );
        }
    }

    /// Resets every cell to the default value by scrolling the whole content
    /// off screen: a shift by the full height.
    pub fn clear(&mut self)
        requires
            old(self).well_formed(),
        ensures
            final(self).well_formed(),
            final(self).default_value() == old(self).default_value(),
            final(self)@ == uniform_grid(HEIGHT as nat, WIDTH as nat, old(self).default_value()),
    {
        let amount = HEIGHT as isize;
        self.shift(amount, 0);
        proof {
            assert(self@ =~~= uniform_grid(
                HEIGHT as nat,
                WIDTH as nat,
                old(self).default_value(),
            ));
        }
    }
}

impl<T: Copy + Default, const WIDTH: usize, const HEIGHT: usize> GridBuffer<T, WIDTH, HEIGHT> {
    /// Constructs a buffer with every cell set to the type's default value.
    pub fn new() -> (result: Self)
        requires
            WIDTH <= isize::MAX as usize,
            HEIGHT <= isize::MAX as usize,
        ensures
            result.well_formed(),
            call_ensures(T::default, (), result.default_value()),
            result@ == uniform_grid(HEIGHT as nat, WIDTH as nat, result.default_value()),
    {
        let value = T::default();
        Self::new_with_default(value)
    }

    /// Constructs a buffer holding a copy of `array`; shifts on it backfill
    /// with the type's default value.
    pub fn from_array(array: [[T; WIDTH]; HEIGHT]) -> (result: Self)
        requires
            WIDTH <= isize::MAX as usize,
            HEIGHT <= isize::MAX as usize,
        ensures
            result.well_formed(),
            call_ensures(T::default, (), result.default_value()),
            forall|r: int, c: int|
                0 <= r < HEIGHT && 0 <= c < WIDTH ==> result@[r][c] == array@[r]@[c],
    {
        let fill = T::default();
        let mut content: Vec<Vec<T>> = Vec::new();
        let mut r: usize = 0;
        while r < HEIGHT
            invariant
                r <= HEIGHT,
                content@.len() == r,
                forall|i: int| 0 <= i < r ==> (#[trigger] content@[i])@.len() == WIDTH,
                forall|i: int, j: int|
                    0 <= i < r && 0 <= j < WIDTH ==> (#[trigger] content@[i]@[j]) == array@[i]@[j],
            decreases HEIGHT - r,
        {
            let mut row: Vec<T> = Vec::new();
            let mut c: usize = 0;
            while c < WIDTH
                invariant
                    r < HEIGHT,
                    c <= WIDTH,
                    row@.len() == c,
                    forall|j: int| 0 <= j < c ==> row@[j] == array@[r as int]@[j],
                decreases WIDTH - c,
            {
                row.push(array[r][c]);
                c = c + 1;
            }
            content.push(row);
            r = r + 1;
        }
        GridBuffer { content, fill }
    }
}

} // verus!
