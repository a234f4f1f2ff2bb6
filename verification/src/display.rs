use vstd::prelude::*;

verus! {

/// Pixels per row of the display.
pub const WIDTH: usize = 64;

/// Rows of the display.
pub const HEIGHT: usize = 32;

/// A grid of the display's shape: 32 rows of 64 pixels.
pub open spec fn grid_shaped(grid: Seq<Seq<bool>>) -> bool {
    grid.len() == 32 && forall|row: int| 0 <= row < 32 ==> (#[trigger] grid[row]).len() == 64
}

/// The grid with no pixel lit.
pub open spec fn blank_grid() -> Seq<Seq<bool>> {
    Seq::new(32, |row: int| Seq::new(64, |col: int| false))
}

/// Whether a sprite row lights its pixel `j`, counted from the left: the
/// leftmost pixel is the highest bit.
pub open spec fn sprite_bit(bits: u8, j: u8) -> bool {
    bits & (0x80u8 >> j) != 0
}

/// Whether the part of `sprite` that comes before pixel `cols_done` of row
/// `rows_done` lights the display pixel at (`col`, `row`), with the sprite's
/// corner at column `left` and row `top`. Coordinates wrap round both edges
/// of the display, so the sprite row and pixel that can reach (`col`, `row`)
/// are its distances from the corner modulo the display's size.
pub open spec fn covers_before(
    sprite: Seq<u8>,
    left: int,
    top: int,
    col: int,
    row: int,
    rows_done: int,
    cols_done: int,
) -> bool {
    let k = (row - top) % 32;
    let j = (col - left) % 64;
    &&& j < 8
    &&& k < sprite.len()
    &&& k < rows_done || (k == rows_done && j < cols_done)
    &&& sprite_bit(sprite[k], j as u8)
}

/// Whether `sprite`, drawn with its corner at (`left`, `top`), lights the
/// display pixel at (`col`, `row`).
pub open spec fn covers(sprite: Seq<u8>, left: int, top: int, col: int, row: int) -> bool {
    covers_before(sprite, left, top, col, row, sprite.len() as int, 0)
}

/// The grid after `sprite` is drawn onto `grid` at (`left`, `top`): each
/// pixel the sprite lights is inverted, every other pixel stays.
pub open spec fn drawn(grid: Seq<Seq<bool>>, sprite: Seq<u8>, left: int, top: int) -> Seq<
    Seq<bool>,
> {
    Seq::new(
        32,
        |row: int| Seq::new(64, |col: int| grid[row][col] != covers(sprite, left, top, col, row)),
    )
}

/// Whether the part of `sprite` before pixel `cols_done` of row `rows_done`
/// puts out the lit pixel at (`col`, `row`) of `grid`.
pub open spec fn erases_before(
    grid: Seq<Seq<bool>>,
    sprite: Seq<u8>,
    left: int,
    top: int,
    col: int,
    row: int,
    rows_done: int,
    cols_done: int,
) -> bool {
    &&& 0 <= col < 64
    &&& 0 <= row < 32
    &&& grid[row][col]
    &&& covers_before(sprite, left, top, col, row, rows_done, cols_done)
}

/// Whether drawing the part of `sprite` before pixel `cols_done` of row
/// `rows_done` puts out some lit pixel of `grid`.
pub open spec fn collides_before(
    grid: Seq<Seq<bool>>,
    sprite: Seq<u8>,
    left: int,
    top: int,
    rows_done: int,
    cols_done: int,
) -> bool {
    exists|col: int, row: int|
        erases_before(grid, sprite, left, top, col, row, rows_done, cols_done)
}

/// Whether drawing `sprite` onto `grid` at (`left`, `top`) puts out some lit
/// pixel.
pub open spec fn collides(grid: Seq<Seq<bool>>, sprite: Seq<u8>, left: int, top: int) -> bool {
    collides_before(grid, sprite, left, top, sprite.len() as int, 0)
}

/// The number of lit pixels among the first `cols` of a row.
pub open spec fn lit_in_row(pixels: Seq<bool>, cols: int) -> nat
    decreases cols,
{
    if cols <= 0 {
        0
    } else {
        lit_in_row(pixels, cols - 1) + if pixels[cols - 1] {
            1nat
        } else {
            0nat
        }
    }
}

/// The number of lit pixels in the first `rows` rows of a grid.
pub open spec fn lit_in_grid(grid: Seq<Seq<bool>>, rows: int) -> nat
    decreases rows,
{
    if rows <= 0 {
        0
    } else {
        lit_in_grid(grid, rows - 1) + lit_in_row(grid[rows - 1], 64)
    }
}

/// A row without a lit pixel counts none.
pub proof fn lemma_dark_row_counts_none(pixels: Seq<bool>, cols: int)
    requires
        forall|col: int| 0 <= col < cols ==> !pixels[col],
    ensures
        lit_in_row(pixels, cols) == 0,
    decreases cols,
{
    if cols > 0 {
        lemma_dark_row_counts_none(pixels, cols - 1);
    }
}

/// A grid without a lit pixel counts none.
pub proof fn lemma_dark_grid_counts_none(grid: Seq<Seq<bool>>, rows: int)
    requires
        forall|row: int, col: int| 0 <= row < rows && 0 <= col < 64 ==> !grid[row][col],
    ensures
        lit_in_grid(grid, rows) == 0,
    decreases rows,
{
    if rows > 0 {
        lemma_dark_grid_counts_none(grid, rows - 1);
        lemma_dark_row_counts_none(grid[rows - 1], 64);
    }
}

/// Drawing on a dark grid lights exactly the pixels that the sprite covers
/// and puts none out.
pub proof fn lemma_draw_on_blank(sprite: Seq<u8>, left: int, top: int)
    ensures
        !collides(blank_grid(), sprite, left, top),
        forall|row: int, col: int|
            0 <= row < 32 && 0 <= col < 64 ==> #[trigger] drawn(
                blank_grid(),
                sprite,
                left,
                top,
            )[row][col] == covers(sprite, left, top, col, row),
{
}

/// Drawing the same sprite twice at the same place gives back the grid as it
/// was.
pub proof fn lemma_draw_twice_restores(grid: Seq<Seq<bool>>, sprite: Seq<u8>, left: int, top: int)
    requires
        grid_shaped(grid),
    ensures
        drawn(drawn(grid, sprite, left, top), sprite, left, top) == grid,
{
    let once = drawn(grid, sprite, left, top);
    let twice = drawn(once, sprite, left, top);
    assert forall|row: int| 0 <= row < 32 implies #[trigger] twice[row] =~= grid[row] by {
        assert forall|col: int| 0 <= col < 64 implies twice[row][col] == grid[row][col] by {
            assert(once[row][col] == (grid[row][col] != covers(sprite, left, top, col, row)));
        }
    }
    assert(twice =~= grid);
}

/// The display: 32 rows of 64 pixels, each lit or dark.
pub struct Display {
    pixels: [[bool; 64]; 32],
}

impl View for Display {
    type V = Seq<Seq<bool>>;

    closed spec fn view(&self) -> Seq<Seq<bool>> {
        Seq::new(32, |row: int| self.pixels@[row]@)
    }
}

impl Display {
    /// Every display has 32 rows of 64 pixels.
    pub proof fn lemma_shape(&self)
        ensures
            grid_shaped(self@),
    {
    }

    /// A display with no pixel lit.
    pub fn new() -> (display: Display)
        ensures
            display@ == blank_grid(),
    {
        let display = Display { pixels: [[false; 64]; 32] };
        assert(display@ =~~= blank_grid());
        display
    }

    /// Whether the pixel in column `col` of row `row` is lit.
    pub fn pixel(&self, col: usize, row: usize) -> (lit: bool)
        requires
            col < 64,
            row < 32,
        ensures
            lit == self@[row as int][col as int],
    {
        self.pixels[row][col]
    }

    /// Puts every pixel out.
    pub fn clear(&mut self)
        ensures
            final(self)@ == blank_grid(),
    {
        self.pixels = [[false; 64]; 32];
        assert(self@ =~~= blank_grid());
    }

    /// Draws `sprite` with its corner at column `left`, row `top`: every
    /// pixel that the sprite lights is inverted on the display, with
    /// coordinates wrapping round both edges. Returns whether a lit pixel
    /// went dark.
    pub fn draw(&mut self, sprite: &[u8], left: u8, top: u8) -> (collision: bool)
        requires
            sprite@.len() <= 15,
        ensures
            final(self)@ == drawn(old(self)@, sprite@, left as int, top as int),
            collision == collides(old(self)@, sprite@, left as int, top as int),
    {
        let mut collision = false;
        let mut k: usize = 0;
        while k < sprite.len()
            invariant
                k <= sprite@.len() <= 15,
                grid_shaped(self@),
                forall|row: int, col: int|
                    0 <= row < 32 && 0 <= col < 64 ==> #[trigger] self@[row][col] == (old(
                        self,
                    )@[row][col] != covers_before(
                        sprite@,
                        left as int,
                        top as int,
                        col,
                        row,
                        k as int,
                        0,
                    )),
                collision == collides_before(
                    old(self)@,
                    sprite@,
                    left as int,
                    top as int,
                    k as int,
                    0,
                ),
            decreases sprite@.len() - k,
        {
            let bits: u8 = sprite[k];
            let row: usize = (top as usize + k) % HEIGHT;
            let mut j: u8 = 0;
            while j < 8
                invariant
                    j <= 8,
                    k < sprite@.len() <= 15,
                    bits == sprite@[k as int],
                    row == (top + k) % 32,
                    grid_shaped(self@),
                    forall|r: int, c: int|
                        0 <= r < 32 && 0 <= c < 64 ==> #[trigger] self@[r][c] == (old(
                            self,
                        )@[r][c] != covers_before(
                            sprite@,
                            left as int,
                            top as int,
                            c,
                            r,
                            k as int,
                            j as int,
                        )),
                    collision == collides_before(
                        old(self)@,
                        sprite@,
                        left as int,
                        top as int,
                        k as int,
                        j as int,
                    ),
                decreases 8 - j,
            {
                let col: usize = (left as usize + j as usize) % WIDTH;
                let ghost before = self@;
                let ghost hit_before = collision;
                if bits & (0x80u8 >> j) != 0 {
                    if self.pixels[row][col] {
                        collision = true;
                    }
                    self.flip(col, row);
                }
                proof {
                    let l = left as int;
                    let t = top as int;
                    let kk = k as int;
                    let jj = j as int;
                    let j1 = jj + 1;
                    let g = old(self)@;
                    let s = sprite@;
                    assert((row as int - t) % 32 == kk);
                    assert((col as int - l) % 64 == jj);
                    assert forall|r: int, c: int| 0 <= r < 32 && 0 <= c < 64 implies covers_before(
                        s,
                        l,
                        t,
                        c,
                        r,
                        kk,
                        j1,
                    ) == (covers_before(s, l, t, c, r, kk, jj) || (r == row && c == col
                        && sprite_bit(bits, j))) by {
                        if (r - t) % 32 == kk && (c - l) % 64 == jj {
                            assert(r == row as int);
                            assert(c == col as int);
                        }
                    }
                    assert(!covers_before(s, l, t, col as int, row as int, kk, jj));
                    assert(before[row as int][col as int] == g[row as int][col as int]);
                    if sprite_bit(bits, j) && before[row as int][col as int] {
                        assert(erases_before(
                            g,
                            s,
                            l,
                            t,
                            col as int,
                            row as int,
                            kk,
                            j1,
                        ));
                    } else {
                        if collides_before(g, s, l, t, kk, j1) {
                            let (c, r) = choose|c: int, r: int|
                                erases_before(g, s, l, t, c, r, kk, j1);
                            assert(erases_before(g, s, l, t, c, r, kk, jj));
                        }
                    }
                    if hit_before {
                        let (c, r) = choose|c: int, r: int|
                            erases_before(g, s, l, t, c, r, kk, jj);
                        assert(erases_before(g, s, l, t, c, r, kk, j1));
                    }
                }
                j += 1;
            }
            proof {
                let l = left as int;
                let t = top as int;
                let k0 = k as int;
                let k1 = k0 + 1;
                let g = old(self)@;
                let s = sprite@;
                assert forall|r: int, c: int| 0 <= r < 32 && 0 <= c < 64 implies covers_before(
                    s,
                    l,
                    t,
                    c,
                    r,
                    k0,
                    8,
                ) == covers_before(s, l, t, c, r, k1, 0) by {}
                assert(collides_before(g, s, l, t, k0, 8) == collides_before(
                    g,
                    s,
                    l,
                    t,
                    k1,
                    0,
                )) by {
                    if collides_before(g, s, l, t, k0, 8) {
                        let (c, r) = choose|c: int, r: int|
                            erases_before(g, s, l, t, c, r, k0, 8);
                        assert(erases_before(g, s, l, t, c, r, k1, 0));
                    }
                    if collides_before(g, s, l, t, k1, 0) {
                        let (c, r) = choose|c: int, r: int|
                            erases_before(g, s, l, t, c, r, k1, 0);
                        assert(erases_before(g, s, l, t, c, r, k0, 8));
                    }
                }
            }
            k += 1;
        }
        assert(self@ =~~= drawn(old(self)@, sprite@, left as int, top as int));
        collision
    }

    /// The number of lit pixels.
    pub fn count_lit(&self) -> (count: usize)
        ensures
            count == lit_in_grid(self@, 32),
    {
        let mut count: usize = 0;
        let mut row: usize = 0;
        while row < HEIGHT
            invariant
                row <= 32,
                count == lit_in_grid(self@, row as int),
                count <= 64 * row,
            decreases 32 - row,
        {
            let mut in_row: usize = 0;
            let mut col: usize = 0;
            while col < WIDTH
                invariant
                    row < 32,
                    col <= 64,
                    in_row == lit_in_row(self@[row as int], col as int),
                    in_row <= col,
                decreases 64 - col,
            {
                if self.pixels[row][col] {
                    in_row += 1;
                }
                col += 1;
            }
            count += in_row;
            row += 1;
        }
        count
    }

    /// Inverts one pixel.
    fn flip(&mut self, col: usize, row: usize)
        requires
            col < 64,
            row < 32,
        ensures
            final(self)@ == old(self)@.update(
                row as int,
                old(self)@[row as int].update(col as int, !old(self)@[row as int][col as int]),
            ),
    {
        let lit = self.pixels[row][col];
        self.pixels[row][col] = !lit;
        assert(self@ =~~= old(self)@.update(
            row as int,
            old(self)@[row as int].update(col as int, !old(self)@[row as int][col as int]),
        ));
    }
}

} // verus!
