//! The display surface: a 64x32 monochrome bitmap with wraparound XOR sprite
//! drawing and collision reporting.

use vstd::prelude::*;

verus! {

/// Width of the display in cells.
pub const WIDTH: usize = 64;

/// Height of the display in cells.
pub const HEIGHT: usize = 32;

/// Number of cells of the display.
pub const DISPLAY_SIZE: usize = 2048;

/// Bit `i` (0 = most significant) of a sprite row.
pub open spec fn spec_bit(row: u8, i: int) -> bool {
    ((row >> ((7 - i) as u8)) & 1) == 1
}

/// Row-major index of the cell that the point `(x, y)` lands on after
/// wraparound.
pub open spec fn cell_index(x: int, y: int) -> int {
    (y % 32) * 64 + (x % 64)
}

/// One bit of a sprite row applied to the display: if bit `i` of `row` is
/// set, the cell at `(x + i, y)` (wrapped) is toggled, and the second
/// component reports whether that cell was already on.
pub open spec fn spec_row_step(p: Seq<bool>, x: int, y: int, row: u8, i: int) -> (Seq<bool>, bool) {
    if spec_bit(row, i) {
        let c = cell_index(x + i, y);
        (p.update(c, !p[c]), p[c])
    } else {
        (p, false)
    }
}

/// The first `i` bits of a sprite row applied to the display, with the
/// accumulated collision report.
pub open spec fn spec_row_upto(p: Seq<bool>, x: int, y: int, row: u8, i: int) -> (Seq<bool>, bool)
    decreases i,
{
    if i <= 0 {
        (p, false)
    } else {
        let prev = spec_row_upto(p, x, y, row, i - 1);
        let st = spec_row_step(prev.0, x, y, row, i - 1);
        (st.0, prev.1 || st.1)
    }
}

/// The first `j` rows of a sprite applied to the display, with the
/// accumulated collision report.
pub open spec fn spec_draw_upto(p: Seq<bool>, x: int, y: int, sprite: Seq<u8>, j: int) -> (
    Seq<bool>,
    bool,
)
    decreases j,
{
    if j <= 0 {
        (p, false)
    } else {
        let prev = spec_draw_upto(p, x, y, sprite, j - 1);
        let row = spec_row_upto(prev.0, x, y + (j - 1), sprite[j - 1], 8);
        (row.0, prev.1 || row.1)
    }
}

/// A whole sprite applied to the display at `(x, y)`: the new display
/// content, and whether any set sprite bit landed on a cell that was already
/// on at the moment it was toggled.
pub open spec fn spec_draw(p: Seq<bool>, x: int, y: int, sprite: Seq<u8>) -> (Seq<bool>, bool) {
    spec_draw_upto(p, x, y, sprite, sprite.len() as int)
}

/// How many of the first `i` bits of a sprite row are set and land on cell
/// `c` after wraparound.
pub open spec fn row_hits(x: int, y: int, row: u8, i: int, c: int) -> nat
    decreases i,
{
    if i <= 0 {
        0
    } else {
        row_hits(x, y, row, i - 1, c) + (if spec_bit(row, i - 1) && cell_index(x + (i - 1), y)
            == c {
            1nat
        } else {
            0nat
        })
    }
}

/// How many set bits of the first `j` sprite rows land on cell `c` after
/// wraparound.
pub open spec fn sprite_hits(x: int, y: int, sprite: Seq<u8>, j: int, c: int) -> nat
    decreases j,
{
    if j <= 0 {
        0
    } else {
        sprite_hits(x, y, sprite, j - 1, c) + row_hits(x, y + (j - 1), sprite[j - 1], 8, c)
    }
}

proof fn lemma_parity_add(m: nat, n: nat)
    ensures
        (((m + n) % 2) == 1) == ((m % 2 == 1) != (n % 2 == 1)),
{
}

proof fn lemma_row_parity(p: Seq<bool>, x: int, y: int, row: u8, i: int, c: int)
    requires
        p.len() == 2048,
        0 <= x,
        0 <= y,
        0 <= c < 2048,
        0 <= i,
    ensures
        spec_row_upto(p, x, y, row, i).0.len() == 2048,
        spec_row_upto(p, x, y, row, i).0[c] == (p[c] != (row_hits(x, y, row, i, c) % 2 == 1)),
    decreases i,
{
    if i > 0 {
        lemma_row_parity(p, x, y, row, i - 1, c);
        assert(0 <= cell_index(x + (i - 1), y) < 2048);
    }
}

proof fn lemma_draw_parity(p: Seq<bool>, x: int, y: int, sprite: Seq<u8>, j: int, c: int)
    requires
        p.len() == 2048,
        0 <= x,
        0 <= y,
        0 <= c < 2048,
        0 <= j,
    ensures
        spec_draw_upto(p, x, y, sprite, j).0.len() == 2048,
        spec_draw_upto(p, x, y, sprite, j).0[c] == (p[c] != (sprite_hits(x, y, sprite, j, c) % 2
            == 1)),
    decreases j,
{
    if j > 0 {
        lemma_draw_parity(p, x, y, sprite, j - 1, c);
        let prev = spec_draw_upto(p, x, y, sprite, j - 1);
        lemma_row_parity(prev.0, x, y + (j - 1), sprite[j - 1], 8, c);
        lemma_parity_add(
            sprite_hits(x, y, sprite, j - 1, c),
            row_hits(x, y + (j - 1), sprite[j - 1], 8, c),
        );
    }
}

/// XOR idempotence of sprite drawing: drawing the same sprite at the same
/// position twice, with no other display mutation in between, restores every
/// cell to its value before the first draw.
pub proof fn lemma_draw_twice_restores(p: Seq<bool>, x: int, y: int, sprite: Seq<u8>)
    requires
        p.len() == 2048,
        0 <= x,
        0 <= y,
    ensures
        spec_draw(spec_draw(p, x, y, sprite).0, x, y, sprite).0 == p,
{
    let q = spec_draw(p, x, y, sprite).0;
    let r = spec_draw(q, x, y, sprite).0;
    lemma_draw_parity(p, x, y, sprite, sprite.len() as int, 0);
    lemma_draw_parity(q, x, y, sprite, sprite.len() as int, 0);
    assert forall|c: int| 0 <= c < 2048 implies r[c] == p[c] by {
        lemma_draw_parity(p, x, y, sprite, sprite.len() as int, c);
        lemma_draw_parity(q, x, y, sprite, sprite.len() as int, c);
    }
    assert(r =~= p);
}

/// The display surface the interpreter draws to.
pub trait Graphics: Sized {
    /// The abstract content of the display: one boolean per cell, row-major.
    /// An implementation that does not model its cells leaves the default,
    /// of which nothing useful holds.
    open spec fn pixels(&self) -> Seq<bool> {
        Seq::empty()
    }

    /// Turn every cell off.
    fn cls(&mut self)
        requires
            old(self).pixels().len() == 2048,
        ensures
            final(self).pixels().len() == 2048,
            forall|c: int| 0 <= c < 2048 ==> !final(self).pixels()[c],
    ;

    /// Set one cell; the caller has already applied wraparound.
    fn set_pixel(&mut self, x: usize, y: usize, on: bool)
        requires
            old(self).pixels().len() == 2048,
            x < 64,
            y < 32,
        ensures
            final(self).pixels() == old(self).pixels().update((x + y * 64) as int, on),
    ;

    /// Read one cell; the caller has already applied wraparound.
    fn get_pixel(&self, x: usize, y: usize) -> (on: bool)
        requires
            self.pixels().len() == 2048,
            x < 64,
            y < 32,
        ensures
            on == self.pixels()[x + y * 64],
    ;

    /// Draw a sprite at `(x, y)` by XOR compositing with wraparound, and
    /// report whether it collided with a cell that was already on.
    fn draw(&mut self, x: usize, y: usize, sprite: &[u8]) -> (collision: bool)
        requires
            old(self).pixels().len() == 2048,
            x + 8 <= usize::MAX,
            y + sprite@.len() <= usize::MAX,
        ensures
            final(self).pixels().len() == 2048,
            final(self).pixels() == spec_draw(old(self).pixels(), x as int, y as int, sprite@).0,
            collision == spec_draw(old(self).pixels(), x as int, y as int, sprite@).1,
    ;
}

/// A display that stores only the cell grid, with no attached output device.
pub struct TestDisplay {
    memory: [u8; 2048],
}

impl TestDisplay {
    /// A display with every cell off.
    pub fn new_test() -> (d: TestDisplay)
        ensures
            d.pixels().len() == 2048,
            forall|c: int| 0 <= c < 2048 ==> !d.pixels()[c],
    {
        TestDisplay { memory: [0u8; 2048] }
    }
}

impl Graphics for TestDisplay {
    closed spec fn pixels(&self) -> Seq<bool> {
        self.memory@.map_values(|b: u8| b == 1)
    }

    fn cls(&mut self) {
        let mut idx: usize = 0;
        while idx < DISPLAY_SIZE
            invariant
                idx <= 2048,
                forall|c: int| 0 <= c < idx ==> self.memory@[c] == 0,
            decreases 2048 - idx,
        {
            self.memory[idx] = 0;
            idx = idx + 1;
        }
        proof {
            assert forall|c: int| 0 <= c < 2048 implies !self.pixels()[c] by {
                assert(self.pixels()[c] == (self.memory@[c] == 1));
            }
        }
    }

    fn set_pixel(&mut self, x: usize, y: usize, on: bool) {
        self.memory[x + y * WIDTH] = if on {
            1
        } else {
            0
        };
        proof {
            assert(self.pixels() =~= old(self).pixels().update((x + y * 64) as int, on));
        }
    }

    fn get_pixel(&self, x: usize, y: usize) -> (on: bool) {
        self.memory[x + y * WIDTH] == 1
    }

    fn draw(&mut self, x: usize, y: usize, sprite: &[u8]) -> (collision: bool) {
        let rows = sprite.len();
        let mut collision = false;
        let mut j: usize = 0;
        while j < rows
            invariant
                rows == sprite@.len(),
                j <= rows,
                x + 8 <= usize::MAX,
                y + rows <= usize::MAX,
                (self.pixels(), collision) == spec_draw_upto(
                    old(self).pixels(),
                    x as int,
                    y as int,
                    sprite@,
                    j as int,
                ),
            decreases rows - j,
        {
            let row = sprite[j];
            let ghost p_row = self.pixels();
            let ghost coll_start = collision;
            let mut i: usize = 0;
            while i < 8
                invariant
                    rows == sprite@.len(),
                    j < rows,
                    i <= 8,
                    x + 8 <= usize::MAX,
                    y + rows <= usize::MAX,
                    row == sprite@[j as int],
                    (self.pixels(), collision) == ({
                        let r = spec_row_upto(p_row, x as int, (y + j) as int, row, i as int);
                        (r.0, coll_start || r.1)
                    }),
                    p_row.len() == 2048,
                decreases 8 - i,
            {
                let shift: u8 = (7 - i) as u8;
                let curr = (row >> shift) & 0x01;
                proof {
                    assert((curr == 1) == spec_bit(row, i as int));
                }
                if curr == 1 {
                    let xi = (x + i) % WIDTH;
                    let yj = (y + j) % HEIGHT;
                    let prev = self.get_pixel(xi, yj);
                    if prev {
                        collision = true;
                    }
                    self.set_pixel(xi, yj, (curr == 1) ^ prev);
                    proof {
                        assert(xi + yj * 64 == cell_index(x as int + i, (y + j) as int));
                    }
                }
                i = i + 1;
            }
            j = j + 1;
        }
        collision
    }
}

} // verus!
