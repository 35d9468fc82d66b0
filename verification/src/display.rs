//! The monochrome framebuffer: a fixed grid of one-bit pixels onto which
//! sprites are composited with XOR.

use vstd::prelude::*;

verus! {

/// Number of pixel columns.
pub const DISPLAY_WIDTH: usize = 64;

/// Number of pixel rows.
pub const DISPLAY_HEIGHT: usize = 32;

/// Number of pixels in a whole frame.
pub const DISPLAY_PIXELS: usize = 2048;

/// Colour of a lit pixel in a frame handed to a display sink (0RGB).
pub const PIXEL_ON: u32 = 0xFFFFFF;

/// Colour of a dark pixel in a frame handed to a display sink (0RGB).
pub const PIXEL_OFF: u32 = 0x000000;

/// The colour of a pixel in a frame handed to a display sink.
pub open spec fn pixel_colour(lit: bool) -> u32 {
    if lit {
        PIXEL_ON
    } else {
        PIXEL_OFF
    }
}

/// The mathematical model of the framebuffer: `DISPLAY_HEIGHT` rows of
/// `DISPLAY_WIDTH` cells, `true` for a lit pixel. Row 0 is the top row and
/// column 0 the leftmost column.
pub type Grid = Seq<Seq<bool>>;

/// A grid has the framebuffer's dimensions.
pub open spec fn grid_wf(g: Grid) -> bool {
    &&& g.len() == DISPLAY_HEIGHT
    &&& forall|r: int| 0 <= r < DISPLAY_HEIGHT ==> (#[trigger] g[r]).len() == DISPLAY_WIDTH
}

/// The grid with every pixel dark.
pub open spec fn blank_grid() -> Grid {
    Seq::new(DISPLAY_HEIGHT as nat, |r: int| Seq::new(DISPLAY_WIDTH as nat, |c: int| false))
}

/// Bit `j` of a sprite row, counted from the most significant bit, which is
/// the leftmost pixel of the row. No bit outside `0..8` is set.
pub open spec fn sprite_bit(row: u8, j: int) -> bool {
    0 <= j < 8 && (row >> ((7 - j) as u8)) & 1 == 1
}

/// How many columns to the right of column `x` column `c` lies, counted
/// around the grid: past the right edge comes column 0.
pub open spec fn column_offset(x: int, c: int) -> int {
    (c - x) % (DISPLAY_WIDTH as int)
}

/// Whether a sprite row drawn with its leftmost bit at column `x` puts a set
/// bit on column `c`.
pub open spec fn row_covers(x: int, row: u8, c: int) -> bool {
    sprite_bit(row, column_offset(x, c))
}

/// A grid row after a sprite row has been XOR-ed into it from column `x`.
pub open spec fn xor_row(cells: Seq<bool>, x: int, row: u8) -> Seq<bool> {
    Seq::new(DISPLAY_WIDTH as nat, |c: int| cells[c] != row_covers(x, row, c))
}

/// Whether XOR-ing a sprite row into a grid row from column `x` turns a lit
/// pixel off.
pub open spec fn row_collides(cells: Seq<bool>, x: int, row: u8) -> bool {
    exists|c: int| 0 <= c < DISPLAY_WIDTH && cells[c] && #[trigger] row_covers(x, row, c)
}

/// The grid row on which sprite row `i` lands when the sprite is drawn at
/// height `y`. Rows are counted around the grid.
pub open spec fn target_row(y: int, i: int) -> int {
    (y + i) % (DISPLAY_HEIGHT as int)
}

/// The grid after the first `n` rows of `sprite` have been drawn at `(x, y)`,
/// and whether any of those rows turned a lit pixel off. Rows are drawn one
/// after another, each onto what the rows before it left.
pub open spec fn draw_rows(g: Grid, x: int, y: int, sprite: Seq<u8>, n: nat) -> (Grid, bool)
    decreases n,
{
    if n == 0 {
        (g, false)
    } else {
        let i = n - 1;
        let (before, hit) = draw_rows(g, x, y, sprite, i as nat);
        let r = target_row(y, i);
        (
            before.update(r, xor_row(before[r], x, sprite[i])),
            hit || row_collides(before[r], x, sprite[i]),
        )
    }
}

/// The grid after `sprite` has been drawn at `(x, y)`, and the collision flag
/// of that draw.
pub open spec fn draw_sprite(g: Grid, x: int, y: int, sprite: Seq<u8>) -> (Grid, bool) {
    draw_rows(g, x, y, sprite, sprite.len())
}

/// Whether a sprite has at least one set bit.
pub open spec fn has_ink(sprite: Seq<u8>) -> bool {
    exists|i: int| 0 <= i < sprite.len() && #[trigger] sprite[i] != 0
}

/// What a draw reports back.
#[derive(Clone, Copy, Debug, PartialEq, Eq, Structural)]
pub struct DrawResult {
    /// The draw turned at least one lit pixel off.
    pub collision: bool,
    /// The sprite had at least one set bit, so the frame shown to the user
    /// is out of date and has to be presented again.
    pub updated: bool,
}

/// The framebuffer.
pub struct Display {
    pixels: [[bool; DISPLAY_WIDTH]; DISPLAY_HEIGHT],
}

impl View for Display {
    type V = Grid;

    closed spec fn view(&self) -> Grid {
        Seq::new(DISPLAY_HEIGHT as nat, |r: int| self.pixels[r]@)
    }
}

/// A grid row while a sprite row is being XOR-ed into it: only the sprite's
/// first `j` bits have been applied.
spec fn xor_row_upto(cells: Seq<bool>, x: int, row: u8, j: int) -> Seq<bool> {
    Seq::new(
        DISPLAY_WIDTH as nat,
        |c: int| cells[c] != (row_covers(x, row, c) && column_offset(x, c) < j),
    )
}

/// Whether one of the first `j` bits of a sprite row lands on a lit pixel.
spec fn row_collides_upto(cells: Seq<bool>, x: int, row: u8, j: int) -> bool {
    exists|c: int|
        0 <= c < DISPLAY_WIDTH && cells[c] && #[trigger] row_covers(x, row, c) && column_offset(
            x,
            c,
        ) < j
}

/// Whether one of the first `j` bits of a sprite row is set.
spec fn row_has_ink_upto(row: u8, j: int) -> bool {
    exists|k: int| 0 <= k < j && #[trigger] sprite_bit(row, k)
}

/// The column `j` places to the right of `x`, around the grid, is the one
/// column at offset `j` from `x`.
proof fn lemma_column_at_offset(x: int, j: int, c: int)
    requires
        0 <= x,
        0 <= j < DISPLAY_WIDTH,
        0 <= c < DISPLAY_WIDTH,
    ensures
        column_offset(x, c) == j <==> c == (x % (DISPLAY_WIDTH as int) + j) % (DISPLAY_WIDTH as int),
{
}

/// Before any bit of a sprite row is applied, nothing has happened.
proof fn lemma_row_start(cells: Seq<bool>, x: int, row: u8)
    requires
        cells.len() == DISPLAY_WIDTH,
    ensures
        xor_row_upto(cells, x, row, 0) == cells,
        !row_collides_upto(cells, x, row, 0),
        !row_has_ink_upto(row, 0),
{
    assert(xor_row_upto(cells, x, row, 0) =~= cells);
}

/// What applying bit `j` of a sprite row, which lands on column `x_pos`,
/// adds to what the first `j` bits have done.
proof fn lemma_row_step(cells: Seq<bool>, x: int, row: u8, j: int, x_pos: int)
    requires
        cells.len() == DISPLAY_WIDTH,
        0 <= x,
        0 <= j < 8,
        x_pos == (x % (DISPLAY_WIDTH as int) + j) % (DISPLAY_WIDTH as int),
    ensures
        xor_row_upto(cells, x, row, j)[x_pos] == cells[x_pos],
        xor_row_upto(cells, x, row, j + 1) == xor_row_upto(cells, x, row, j).update(
            x_pos,
            cells[x_pos] != sprite_bit(row, j),
        ),
        row_collides_upto(cells, x, row, j + 1) == (row_collides_upto(cells, x, row, j) || (
        sprite_bit(row, j) && cells[x_pos])),
        row_has_ink_upto(row, j + 1) == (row_has_ink_upto(row, j) || sprite_bit(row, j)),
{
    let before = xor_row_upto(cells, x, row, j);
    let after = xor_row_upto(cells, x, row, j + 1);
    lemma_column_at_offset(x, j, x_pos);
    assert(row_covers(x, row, x_pos) == sprite_bit(row, j));
    assert forall|c: int| 0 <= c < DISPLAY_WIDTH implies after[c] == before.update(
        x_pos,
        cells[x_pos] != sprite_bit(row, j),
    )[c] by {
        lemma_column_at_offset(x, j, c);
    }
    assert(after =~= before.update(x_pos, cells[x_pos] != sprite_bit(row, j)));
    if row_collides_upto(cells, x, row, j + 1) {
        let c = choose|c: int|
            0 <= c < DISPLAY_WIDTH && cells[c] && #[trigger] row_covers(x, row, c)
                && column_offset(x, c) < j + 1;
        lemma_column_at_offset(x, j, c);
        if c != x_pos {
            assert(row_collides_upto(cells, x, row, j));
        }
    }
    if row_collides_upto(cells, x, row, j) {
        let c = choose|c: int|
            0 <= c < DISPLAY_WIDTH && cells[c] && #[trigger] row_covers(x, row, c)
                && column_offset(x, c) < j;
        assert(row_collides_upto(cells, x, row, j + 1));
    }
    if sprite_bit(row, j) && cells[x_pos] {
        assert(row_covers(x, row, x_pos));
        assert(row_collides_upto(cells, x, row, j + 1));
    }
    if row_has_ink_upto(row, j + 1) {
        let k = choose|k: int| 0 <= k < j + 1 && #[trigger] sprite_bit(row, k);
        if k != j {
            assert(row_has_ink_upto(row, j));
        }
    }
    if row_has_ink_upto(row, j) {
        let k = choose|k: int| 0 <= k < j && #[trigger] sprite_bit(row, k);
        assert(row_has_ink_upto(row, j + 1));
    }
    if sprite_bit(row, j) {
        assert(row_has_ink_upto(row, j + 1));
    }
}

/// Once all eight bits of a sprite row are applied, the row is drawn.
proof fn lemma_row_end(cells: Seq<bool>, x: int, row: u8)
    requires
        cells.len() == DISPLAY_WIDTH,
    ensures
        xor_row_upto(cells, x, row, 8) == xor_row(cells, x, row),
        row_collides_upto(cells, x, row, 8) == row_collides(cells, x, row),
        row_has_ink_upto(row, 8) == (row != 0),
{
    assert(xor_row_upto(cells, x, row, 8) =~= xor_row(cells, x, row));
    if row_collides(cells, x, row) {
        let c = choose|c: int| 0 <= c < DISPLAY_WIDTH && cells[c] && #[trigger] row_covers(x, row, c);
        assert(row_collides_upto(cells, x, row, 8));
    }
    if row_collides_upto(cells, x, row, 8) {
        let c = choose|c: int|
            0 <= c < DISPLAY_WIDTH && cells[c] && #[trigger] row_covers(x, row, c)
                && column_offset(x, c) < 8;
        assert(row_collides(cells, x, row));
    }
    assert(row != 0 <==> ((row >> 7u8) & 1 == 1 || (row >> 6u8) & 1 == 1 || (row >> 5u8) & 1 == 1
        || (row >> 4u8) & 1 == 1 || (row >> 3u8) & 1 == 1 || (row >> 2u8) & 1 == 1 || (row >> 1u8)
        & 1 == 1 || (row >> 0u8) & 1 == 1)) by (bit_vector);
    if row != 0 {
        assert(sprite_bit(row, 0) || sprite_bit(row, 1) || sprite_bit(row, 2) || sprite_bit(row, 3)
            || sprite_bit(row, 4) || sprite_bit(row, 5) || sprite_bit(row, 6) || sprite_bit(
            row,
            7,
        ));
    }
}

/// A sprite one row longer has ink exactly if it had ink before or the new
/// row has.
proof fn lemma_ink_grows(sprite: Seq<u8>, i: int)
    requires
        0 <= i < sprite.len(),
    ensures
        has_ink(sprite.take(i + 1)) == (has_ink(sprite.take(i)) || sprite[i] != 0),
{
    let longer = sprite.take(i + 1);
    let shorter = sprite.take(i);
    if has_ink(longer) {
        let k = choose|k: int| 0 <= k < longer.len() && #[trigger] longer[k] != 0;
        if k < i {
            assert(shorter[k] != 0);
        }
    }
    if has_ink(shorter) {
        let k = choose|k: int| 0 <= k < shorter.len() && #[trigger] shorter[k] != 0;
        assert(longer[k] != 0);
    }
    if sprite[i] != 0 {
        assert(longer[i] != 0);
    }
}

impl Display {
    /// Every framebuffer has the grid's dimensions.
    pub proof fn lemma_view_wf(&self)
        ensures
            grid_wf(self@),
    {
    }

    /// A framebuffer with every pixel dark.
    pub fn new() -> (d: Display)
        ensures
            d@ == blank_grid(),
    {
        let d = Display { pixels: [[false; DISPLAY_WIDTH]; DISPLAY_HEIGHT] };
        assert(d@ =~~= blank_grid());
        d
    }

    /// Turns every pixel dark.
    pub fn clear(&mut self)
        ensures
            final(self)@ == blank_grid(),
    {
        self.pixels = [[false; DISPLAY_WIDTH]; DISPLAY_HEIGHT];
        assert(self@ =~~= blank_grid());
    }

    /// Whether the pixel in column `x` of row `y` is lit.
    pub fn pixel(&self, x: usize, y: usize) -> (lit: bool)
        requires
            x < DISPLAY_WIDTH,
            y < DISPLAY_HEIGHT,
        ensures
            lit == self@[y as int][x as int],
    {
        self.pixels[y][x]
    }

    /// The frame as a display sink takes it: one colour per pixel, row by
    /// row from the top, `PIXEL_ON` for a lit pixel and `PIXEL_OFF` for a
    /// dark one.
    pub fn pixels_to_buffer(&self) -> (buffer: [u32; DISPLAY_PIXELS])
        ensures
            forall|k: int|
                0 <= k < DISPLAY_PIXELS ==> #[trigger] buffer[k] == pixel_colour(
                    self@[k / (DISPLAY_WIDTH as int)][k % (DISPLAY_WIDTH as int)],
                ),
    {
        let mut buffer = [0u32; DISPLAY_PIXELS];
        let mut i: usize = 0;
        while i < DISPLAY_HEIGHT
            invariant
                i <= DISPLAY_HEIGHT,
                forall|k: int|
                    0 <= k < i * DISPLAY_WIDTH ==> #[trigger] buffer[k] == pixel_colour(
                        self@[k / (DISPLAY_WIDTH as int)][k % (DISPLAY_WIDTH as int)],
                    ),
            decreases DISPLAY_HEIGHT - i,
        {
            let mut j: usize = 0;
            while j < DISPLAY_WIDTH
                invariant
                    i < DISPLAY_HEIGHT,
                    j <= DISPLAY_WIDTH,
                    forall|k: int|
                        0 <= k < i * DISPLAY_WIDTH + j ==> #[trigger] buffer[k] == pixel_colour(
                            self@[k / (DISPLAY_WIDTH as int)][k % (DISPLAY_WIDTH as int)],
                        ),
                decreases DISPLAY_WIDTH - j,
            {
                buffer[i * DISPLAY_WIDTH + j] = if self.pixels[i][j] {
                    PIXEL_ON
                } else {
                    PIXEL_OFF
                };
                j += 1;
            }
            i += 1;
        }
        buffer
    }

    /// XOR-draws one sprite row into grid row `y_pos` with its leftmost bit
    /// at column `x`, counted around the grid. Returns whether a lit pixel
    /// was turned off and whether the row had any set bit.
    fn draw_row(&mut self, x: usize, y_pos: usize, line: u8) -> (res: (bool, bool))
        requires
            y_pos < DISPLAY_HEIGHT,
        ensures
            final(self)@ == old(self)@.update(
                y_pos as int,
                xor_row(old(self)@[y_pos as int], x as int, line),
            ),
            res.0 == row_collides(old(self)@[y_pos as int], x as int, line),
            res.1 == (line != 0),
    {
        let ghost cells = self@[y_pos as int];
        let x0: usize = x % DISPLAY_WIDTH;
        let mut collision = false;
        let mut is_updated = false;
        let mut j: usize = 0;
        proof {
            self.lemma_view_wf();
            lemma_row_start(cells, x as int, line);
        }
        while j < 8
            invariant
                j <= 8,
                y_pos < DISPLAY_HEIGHT,
                x0 == x % DISPLAY_WIDTH,
                cells.len() == DISPLAY_WIDTH,
                self.pixels[y_pos as int]@ == xor_row_upto(cells, x as int, line, j as int),
                forall|r: int|
                    0 <= r < DISPLAY_HEIGHT && r != y_pos ==> self.pixels[r] == old(
                        self,
                    ).pixels[r],
                collision == row_collides_upto(cells, x as int, line, j as int),
                is_updated == row_has_ink_upto(line, j as int),
            decreases 8 - j,
        {
            let shift: u8 = 7 - j as u8;
            let pixel: u8 = (line >> shift) & 0x1;
            let x_pos: usize = (x0 + j) % DISPLAY_WIDTH;
            proof {
                lemma_row_step(cells, x as int, line, j as int, x_pos as int);
                assert(sprite_bit(line, j as int) == (pixel == 1));
            }
            if pixel == 1 {
                is_updated = true;
                let lit: bool = self.pixels[y_pos][x_pos];
                if lit {
                    collision = true;
                }
                self.pixels[y_pos][x_pos] = !lit;
            }
            assert(self.pixels[y_pos as int]@ =~= xor_row_upto(cells, x as int, line, j + 1));
            j += 1;
        }
        proof {
            lemma_row_end(cells, x as int, line);
            assert(self@ =~= old(self)@.update(y_pos as int, xor_row(cells, x as int, line)));
        }
        (collision, is_updated)
    }

    /// XOR-draws `sprite` with its top-left corner at `(x, y)`: row `i` of
    /// the sprite goes to grid row `(y + i) mod DISPLAY_HEIGHT`, and its bit
    /// `j`, most significant first, to column `(x + j) mod DISPLAY_WIDTH`.
    /// Reports whether a lit pixel was turned off and whether the sprite had
    /// any set bit at all.
    pub fn draw(&mut self, x: usize, y: usize, sprite: &Vec<u8>) -> (res: DrawResult)
        ensures
            (final(self)@, res.collision) == draw_sprite(old(self)@, x as int, y as int, sprite@),
            res.updated == has_ink(sprite@),
    {
        let mut collision = false;
        let mut is_updated = false;
        let y0: usize = y % DISPLAY_HEIGHT;
        let mut i: usize = 0;
        assert(sprite@.take(0) =~= Seq::<u8>::empty());
        while i < sprite.len()
            invariant
                i <= sprite.len(),
                y0 == y % DISPLAY_HEIGHT,
                (self@, collision) == draw_rows(old(self)@, x as int, y as int, sprite@, i as nat),
                is_updated == has_ink(sprite@.take(i as int)),
            decreases sprite.len() - i,
        {
            let line: u8 = sprite[i];
            let y_pos: usize = (y0 + i % DISPLAY_HEIGHT) % DISPLAY_HEIGHT;
            assert(y_pos == target_row(y as int, i as int));
            let (hit, inked) = self.draw_row(x, y_pos, line);
            if hit {
                collision = true;
            }
            if inked {
                is_updated = true;
            }
            proof {
                lemma_ink_grows(sprite@, i as int);
            }
            i += 1;
        }
        assert(sprite@.take(sprite.len() as int) =~= sprite@);
        DrawResult { collision, updated: is_updated }
    }
}

} // verus!
