//! The monochrome framebuffer: a 64 by 32 grid of single-bit cells,
//! addressed row-major with wraparound on both axes. Sprites composite into
//! it by XOR, never by overwrite.

use vstd::prelude::*;
use vstd::arithmetic::div_mod::{
    lemma_fundamental_div_mod, lemma_fundamental_div_mod_converse, lemma_mod_multiples_vanish,
    lemma_small_mod,
};

verus! {

/// Width of the pixel grid in cells.
pub const GRID_WIDTH: usize = 64;

/// Height of the pixel grid in cells.
pub const GRID_HEIGHT: usize = 32;

/// Number of cells in the grid.
pub const GRID_SIZE: usize = GRID_WIDTH * GRID_HEIGHT;

/// The grid cell (x, y) sits at this row-major index.
pub open spec fn pixel_index(x: int, y: int) -> int {
    y * (GRID_WIDTH as int) + x
}

/// Row `r`, column `c` of a sprite: bit `7 - c` of its r-th byte, the
/// leftmost pixel being the highest bit.
pub open spec fn sprite_bit(row: u8, c: int) -> u8 {
    (row >> ((7 - c) as u8)) & 1
}

/// The grid cell that sprite cell (r, c) lands on when the sprite is drawn
/// at (xp, yp): both axes wrap.
pub open spec fn wrap_index(xp: int, yp: int, r: int, c: int) -> int {
    pixel_index((xp + c) % (GRID_WIDTH as int), (yp + r) % (GRID_HEIGHT as int))
}

/// The sprite row that lands on grid cell `p` when drawing at row `yp`.
/// Because a sprite is at most 15 rows tall and 8 cells wide, at most one
/// sprite cell lands on any grid cell.
pub open spec fn source_row(p: int, yp: int) -> int {
    (p / (GRID_WIDTH as int) - yp) % (GRID_HEIGHT as int)
}

/// The sprite column that lands on grid cell `p` when drawing at column `xp`.
pub open spec fn source_col(p: int, xp: int) -> int {
    (p % (GRID_WIDTH as int) - xp) % (GRID_WIDTH as int)
}

/// The value of grid cell `p` after the sprite `rows` is drawn at (xp, yp):
/// a cell that some sprite cell lands on is XORed with that sprite bit,
/// every other cell keeps its value.
pub open spec fn draw_cell(fb: Seq<u8>, rows: Seq<u8>, xp: int, yp: int, p: int) -> u8 {
    let sr = source_row(p, yp);
    let sc = source_col(p, xp);
    if sr < rows.len() && sc < 8 {
        fb[p] ^ sprite_bit(rows[sr], sc)
    } else {
        fb[p]
    }
}

/// The whole grid after the sprite `rows` is drawn at (xp, yp).
pub open spec fn draw_grid(fb: Seq<u8>, rows: Seq<u8>, xp: int, yp: int) -> Seq<u8> {
    Seq::new(fb.len(), |p: int| draw_cell(fb, rows, xp, yp, p))
}

/// Whether drawing `rows` at (xp, yp) turns some lit cell off: the
/// collision that the draw instruction reports in the flag register.
pub open spec fn draw_collision(fb: Seq<u8>, rows: Seq<u8>, xp: int, yp: int) -> bool {
    exists|r: int, c: int|
        0 <= r < rows.len() && 0 <= c < 8 && sprite_bit(rows[r], c) == 1 && fb[wrap_index(
            xp,
            yp,
            r,
            c,
        )] == 1
}

/// Whether sprite cell (sr, sc) is among the first `k` cells the blit loop
/// processes, walking the sprite row by row, eight cells per row.
spec fn cell_done(sr: int, sc: int, k: int) -> bool {
    sr * 8 + sc < k
}

/// Grid cell `p` after the first `k` sprite cells have been composited.
spec fn partial_cell(fb0: Seq<u8>, rows: Seq<u8>, xp: int, yp: int, k: int, p: int) -> u8 {
    let sr = source_row(p, yp);
    let sc = source_col(p, xp);
    if sr < rows.len() && sc < 8 && cell_done(sr, sc, k) {
        fb0[p] ^ sprite_bit(rows[sr], sc)
    } else {
        fb0[p]
    }
}

/// Whether one of the first `k` sprite cells hits a lit grid cell.
spec fn partial_hit(fb0: Seq<u8>, rows: Seq<u8>, xp: int, yp: int, k: int) -> bool {
    exists|r: int, c: int|
        0 <= r < rows.len() && 0 <= c < 8 && cell_done(r, c, k) && sprite_bit(rows[r], c) == 1
            && fb0[wrap_index(xp, yp, r, c)] == 1
}

/// Wrapping an offset `r` below `n` around `z` and taking the offset back
/// out returns `r`.
proof fn lemma_wrap_roundtrip(z: int, r: int, n: int)
    requires
        n > 0,
        0 <= r < n,
    ensures
        ((z + r) % n - z) % n == r,
{
    lemma_fundamental_div_mod(z + r, n);
    let k = (z + r) / n;
    assert((z + r) % n - z == n * (-k) + r) by {
        assert(z + r == n * k + (z + r) % n);
        assert(n * (-k) == -(n * k)) by (nonlinear_arith);
    }
    lemma_mod_multiples_vanish(-k, r, n);
    lemma_small_mod(r as nat, n as nat);
}

/// A value `a` in [0, n) is pinned down by its wrapped offset from `z`.
proof fn lemma_wrap_unique(a: int, z: int, w: int, n: int)
    requires
        n > 0,
        0 <= a < n,
        0 <= w < n,
        (a - z) % n == w,
    ensures
        a == (z + w) % n,
{
    lemma_fundamental_div_mod(a - z, n);
    let q = (a - z) / n;
    assert(a == n * q + (z + w));
    lemma_mod_multiples_vanish(q, z + w, n);
    lemma_small_mod(a as nat, n as nat);
}

/// A row-major index decomposes back into its row and column.
proof fn lemma_pixel_decompose(x: int, y: int)
    requires
        0 <= x < GRID_WIDTH,
        0 <= y < GRID_HEIGHT,
    ensures
        pixel_index(x, y) / (GRID_WIDTH as int) == y,
        pixel_index(x, y) % (GRID_WIDTH as int) == x,
        0 <= pixel_index(x, y) < GRID_SIZE,
{
    lemma_fundamental_div_mod_converse(y * (GRID_WIDTH as int) + x, GRID_WIDTH as int, y, x);
}

/// XOR with the same byte twice gives the original byte back.
proof fn lemma_xor_involution(a: u8, b: u8)
    ensures
        (a ^ b) ^ b == a,
{
    assert((a ^ b) ^ b == a) by (bit_vector);
}

/// The grid cell that sprite cell (r, c) lands on maps back to exactly
/// (r, c), and is in bound.
proof fn lemma_target_cell(xp: int, yp: int, r: int, c: int)
    requires
        0 <= xp,
        0 <= yp,
        0 <= r < GRID_HEIGHT,
        0 <= c < GRID_WIDTH,
    ensures
        0 <= wrap_index(xp, yp, r, c) < GRID_SIZE,
        source_row(wrap_index(xp, yp, r, c), yp) == r,
        source_col(wrap_index(xp, yp, r, c), xp) == c,
{
    let sx = (xp + c) % (GRID_WIDTH as int);
    let sy = (yp + r) % (GRID_HEIGHT as int);
    lemma_pixel_decompose(sx, sy);
    lemma_wrap_roundtrip(yp, r, GRID_HEIGHT as int);
    lemma_wrap_roundtrip(xp, c, GRID_WIDTH as int);
}

/// A grid cell whose source row and column are those of sprite cell (r, c)
/// is the one cell that sprite cell lands on.
proof fn lemma_source_unique(p: int, xp: int, yp: int, r: int, c: int)
    requires
        0 <= xp,
        0 <= yp,
        0 <= p < GRID_SIZE,
        0 <= r < GRID_HEIGHT,
        0 <= c < GRID_WIDTH,
        source_row(p, yp) == r,
        source_col(p, xp) == c,
    ensures
        p == wrap_index(xp, yp, r, c),
{
    lemma_fundamental_div_mod(p, GRID_WIDTH as int);
    assert(0 <= p / (GRID_WIDTH as int) < GRID_HEIGHT) by (nonlinear_arith)
        requires
            0 <= p < 2048,
    ;
    lemma_wrap_unique(p / (GRID_WIDTH as int), yp, r, GRID_HEIGHT as int);
    lemma_wrap_unique(p % (GRID_WIDTH as int), xp, c, GRID_WIDTH as int);
}

/// The monochrome pixel grid. Every cell holds 0 or 1.
pub struct FrameBuffer {
    grid: Vec<u8>,
}

impl View for FrameBuffer {
    type V = Seq<u8>;

    closed spec fn view(&self) -> Seq<u8> {
        self.grid@
    }
}

impl FrameBuffer {
    /// The grid spans the whole screen and each cell holds a single bit.
    pub open spec fn wf(&self) -> bool {
        &&& self@.len() == GRID_SIZE
        &&& forall|p: int| 0 <= p < self@.len() ==> self@[p] <= 1
    }

    /// A blank screen.
    pub fn new() -> (r: FrameBuffer)
        ensures
            r.wf(),
            forall|p: int| 0 <= p < GRID_SIZE ==> r@[p] == 0,
    {
        let mut grid: Vec<u8> = Vec::new();
        while grid.len() < GRID_SIZE
            invariant
                grid@.len() <= GRID_SIZE,
                forall|p: int| 0 <= p < grid@.len() ==> grid@[p] == 0,
            decreases GRID_SIZE - grid@.len(),
        {
            grid.push(0);
        }
        FrameBuffer { grid }
    }

    /// Blanks every cell.
    pub fn clear(&mut self)
        requires
            old(self).wf(),
        ensures
            final(self).wf(),
            final(self)@.len() == old(self)@.len(),
            forall|p: int| 0 <= p < final(self)@.len() ==> final(self)@[p] == 0,
    {
        let mut i: usize = 0;
        while i < self.grid.len()
            invariant
                self@.len() == old(self)@.len(),
                i <= self@.len(),
                forall|p: int| 0 <= p < i ==> self@[p] == 0,
                forall|p: int| 0 <= p < self@.len() ==> self@[p] <= 1,
            decreases self@.len() - i,
        {
            self.grid[i] = 0;
            i = i + 1;
        }
    }

    /// The cell at the pre-wrapped coordinates (x, y).
    pub fn get_pixel(&self, x: usize, y: usize) -> (r: u8)
        requires
            self.wf(),
            x < GRID_WIDTH,
            y < GRID_HEIGHT,
        ensures
            r == self@[pixel_index(x as int, y as int)],
            r <= 1,
    {
        self.grid[y * GRID_WIDTH + x]
    }

    /// Overwrites the cell at the pre-wrapped coordinates (x, y).
    pub fn set_pixel(&mut self, x: usize, y: usize, pixel: u8)
        requires
            old(self).wf(),
            x < GRID_WIDTH,
            y < GRID_HEIGHT,
            pixel <= 1,
        ensures
            final(self).wf(),
            final(self)@ == old(self)@.update(pixel_index(x as int, y as int), pixel),
    {
        self.grid[y * GRID_WIDTH + x] = pixel;
    }

    /// XOR-composites the sprite `rows` at position (xp, yp), wrapping on
    /// both axes, and reports whether some lit cell was turned off.
    pub fn blit(&mut self, rows: &Vec<u8>, xp: u8, yp: u8) -> (collision: bool)
        requires
            old(self).wf(),
            rows@.len() <= 15,
        ensures
            final(self).wf(),
            final(self)@ == draw_grid(old(self)@, rows@, xp as int, yp as int),
            collision == draw_collision(old(self)@, rows@, xp as int, yp as int),
    {
        let ghost fb0 = old(self)@;
        let ghost xpi = xp as int;
        let ghost ypi = yp as int;
        let n = rows.len();
        let x_pos = xp as usize;
        let y_pos = yp as usize;
        let mut collision = false;
        let mut r: usize = 0;
        while r < n
            invariant
                self.wf(),
                old(self).wf(),
                fb0 == old(self)@,
                self@.len() == fb0.len(),
                r <= n,
                n == rows@.len(),
                n <= 15,
                x_pos == xpi,
                y_pos == ypi,
                0 <= xpi < 256,
                0 <= ypi < 256,
                forall|p: int|
                    0 <= p < self@.len() ==> self@[p] == partial_cell(
                        fb0,
                        rows@,
                        xpi,
                        ypi,
                        8 * r,
                        p,
                    ),
                collision == partial_hit(fb0, rows@, xpi, ypi, 8 * r),
            decreases n - r,
        {
            let row = rows[r];
            let mut c: usize = 0;
            while c < 8
                invariant
                    self.wf(),
                    old(self).wf(),
                    fb0 == old(self)@,
                    self@.len() == fb0.len(),
                    r < n,
                    c <= 8,
                    n == rows@.len(),
                    n <= 15,
                    row == rows@[r as int],
                    x_pos == xpi,
                    y_pos == ypi,
                    0 <= xpi < 256,
                    0 <= ypi < 256,
                    forall|p: int|
                        0 <= p < self@.len() ==> self@[p] == partial_cell(
                            fb0,
                            rows@,
                            xpi,
                            ypi,
                            8 * r + c,
                            p,
                        ),
                    collision == partial_hit(fb0, rows@, xpi, ypi, 8 * r + c),
                decreases 8 - c,
            {
                let ghost k = 8 * r + c;
                let sprite_pixel = (row >> ((7 - c) as u8)) & 1;
                let screen_x = (x_pos + c) % GRID_WIDTH;
                let screen_y = (y_pos + r) % GRID_HEIGHT;
                proof {
                    assert(sprite_pixel == sprite_bit(rows@[r as int], c as int));
                    assert(sprite_pixel <= 1) by (bit_vector)
                        requires
                            sprite_pixel == (row >> ((7 - c) as u8)) & 1,
                    ;
                    lemma_target_cell(xpi, ypi, r as int, c as int);
                }
                let ghost pstar = wrap_index(xpi, ypi, r as int, c as int);
                let screen_pixel = self.get_pixel(screen_x, screen_y);
                proof {
                    // The target cell has not been composited yet, so it
                    // still holds its original value.
                    assert(!cell_done(r as int, c as int, k));
                    assert(screen_pixel == fb0[pstar]);
                }
                let new_pixel = sprite_pixel ^ screen_pixel;
                proof {
                    assert(new_pixel <= 1) by (bit_vector)
                        requires
                            sprite_pixel <= 1,
                            screen_pixel <= 1,
                            new_pixel == sprite_pixel ^ screen_pixel,
                    ;
                }
                self.set_pixel(screen_x, screen_y, new_pixel);
                let ghost collision_before = collision;
                if sprite_pixel == 1 && screen_pixel == 1 {
                    collision = true;
                }
                proof {
                    assert forall|p: int| 0 <= p < self@.len() implies self@[p] == partial_cell(
                        fb0,
                        rows@,
                        xpi,
                        ypi,
                        k + 1,
                        p,
                    ) by {
                        if p == pstar {
                            assert(source_row(p, ypi) == r as int && source_col(p, xpi)
                                == c as int);
                            assert(cell_done(r as int, c as int, k + 1));
                            assert(sprite_pixel ^ screen_pixel == screen_pixel
                                ^ sprite_pixel) by (bit_vector);
                        } else {
                            let sr = source_row(p, ypi);
                            let sc = source_col(p, xpi);
                            if sr == r as int && sc == c as int {
                                lemma_source_unique(p, xpi, ypi, r as int, c as int);
                                assert(false);
                            }
                        }
                    }
                    // The collision flag now covers one more sprite cell.
                    if collision {
                        if collision_before {
                            let (rr, cc) = choose|rr: int, cc: int|
                                0 <= rr < rows@.len() && 0 <= cc < 8 && cell_done(rr, cc, k)
                                    && sprite_bit(rows@[rr], cc) == 1 && fb0[wrap_index(
                                    xpi,
                                    ypi,
                                    rr,
                                    cc,
                                )] == 1;
                            assert(cell_done(rr, cc, k + 1));
                        } else {
                            assert(cell_done(r as int, c as int, k + 1) && sprite_bit(
                                rows@[r as int],
                                c as int,
                            ) == 1 && fb0[wrap_index(xpi, ypi, r as int, c as int)] == 1);
                        }
                        assert(partial_hit(fb0, rows@, xpi, ypi, k + 1));
                    } else {
                        assert(!partial_hit(fb0, rows@, xpi, ypi, k + 1)) by {
                            if partial_hit(fb0, rows@, xpi, ypi, k + 1) {
                                let (rr, cc) = choose|rr: int, cc: int|
                                    0 <= rr < rows@.len() && 0 <= cc < 8 && cell_done(
                                        rr,
                                        cc,
                                        k + 1,
                                    ) && sprite_bit(rows@[rr], cc) == 1 && fb0[wrap_index(
                                        xpi,
                                        ypi,
                                        rr,
                                        cc,
                                    )] == 1;
                                if cell_done(rr, cc, k) {
                                    assert(partial_hit(fb0, rows@, xpi, ypi, k));
                                } else {
                                    assert(rr == r as int && cc == c as int);
                                    assert(false);
                                }
                            }
                        }
                    }
                }
                c = c + 1;
            }
            r = r + 1;
        }
        proof {
            assert(self@ =~= draw_grid(fb0, rows@, xpi, ypi)) by {
                assert forall|p: int| 0 <= p < self@.len() implies self@[p] == draw_cell(
                    fb0,
                    rows@,
                    xpi,
                    ypi,
                    p,
                ) by {
                    assert(self@[p] == partial_cell(fb0, rows@, xpi, ypi, 8 * n, p));
                }
            }
            assert(collision == draw_collision(fb0, rows@, xpi, ypi)) by {
                if collision {
                    let (rr, cc) = choose|rr: int, cc: int|
                        0 <= rr < rows@.len() && 0 <= cc < 8 && cell_done(rr, cc, 8 * n)
                            && sprite_bit(rows@[rr], cc) == 1 && fb0[wrap_index(
                            xpi,
                            ypi,
                            rr,
                            cc,
                        )] == 1;
                    assert(draw_collision(fb0, rows@, xpi, ypi));
                }
                if draw_collision(fb0, rows@, xpi, ypi) {
                    let (rr, cc) = choose|rr: int, cc: int|
                        0 <= rr < rows@.len() && 0 <= cc < 8 && sprite_bit(rows@[rr], cc) == 1
                            && fb0[wrap_index(xpi, ypi, rr, cc)] == 1;
                    assert(cell_done(rr, cc, 8 * n));
                    assert(partial_hit(fb0, rows@, xpi, ypi, 8 * n));
                }
            }
        }
        collision
    }
}

/// Drawing the same sprite twice at the same position restores every cell:
/// the second draw clears each pixel the first one set. Its collision flag
/// is on exactly when the sprite has a lit bit over a cell that was dark
/// before the first draw, since precisely those cells transition from on
/// back to off.
pub proof fn lemma_draw_twice(fb: Seq<u8>, rows: Seq<u8>, xp: int, yp: int)
    requires
        fb.len() == GRID_SIZE,
        forall|p: int| 0 <= p < fb.len() ==> fb[p] <= 1,
        rows.len() <= 15,
        0 <= xp,
        0 <= yp,
    ensures
        draw_grid(draw_grid(fb, rows, xp, yp), rows, xp, yp) =~= fb,
        draw_collision(draw_grid(fb, rows, xp, yp), rows, xp, yp) <==> (exists|r: int, c: int|
            0 <= r < rows.len() && 0 <= c < 8 && sprite_bit(rows[r], c) == 1 && fb[wrap_index(
                xp,
                yp,
                r,
                c,
            )] == 0),
{
    let g1 = draw_grid(fb, rows, xp, yp);
    let g2 = draw_grid(g1, rows, xp, yp);
    assert forall|p: int| 0 <= p < fb.len() implies g2[p] == fb[p] by {
        let sr = source_row(p, yp);
        let sc = source_col(p, xp);
        if sr < rows.len() && sc < 8 {
            lemma_xor_involution(fb[p], sprite_bit(rows[sr], sc));
        }
    }
    assert forall|r: int, c: int| 0 <= r < rows.len() && 0 <= c < 8 implies g1[wrap_index(
        xp,
        yp,
        r,
        c,
    )] == fb[wrap_index(xp, yp, r, c)] ^ sprite_bit(rows[r], c) by {
        lemma_target_cell(xp, yp, r, c);
    }
    if draw_collision(g1, rows, xp, yp) {
        let (r, c) = choose|r: int, c: int|
            0 <= r < rows.len() && 0 <= c < 8 && sprite_bit(rows[r], c) == 1 && g1[wrap_index(
                xp,
                yp,
                r,
                c,
            )] == 1;
        lemma_target_cell(xp, yp, r, c);
        let a = fb[wrap_index(xp, yp, r, c)];
        assert(a <= 1 && a ^ 1 == 1 ==> a == 0) by (bit_vector);
        assert(sprite_bit(rows[r], c) == 1 && fb[wrap_index(xp, yp, r, c)] == 0);
    }
    if exists|r: int, c: int|
        0 <= r < rows.len() && 0 <= c < 8 && sprite_bit(rows[r], c) == 1 && fb[wrap_index(
            xp,
            yp,
            r,
            c,
        )] == 0 {
        let (r, c) = choose|r: int, c: int|
            0 <= r < rows.len() && 0 <= c < 8 && sprite_bit(rows[r], c) == 1 && fb[wrap_index(
                xp,
                yp,
                r,
                c,
            )] == 0;
        lemma_target_cell(xp, yp, r, c);
        let a = fb[wrap_index(xp, yp, r, c)];
        assert(a == 0 ==> a ^ 1 == 1) by (bit_vector);
        assert(g1[wrap_index(xp, yp, r, c)] == 1);
        assert(draw_collision(g1, rows, xp, yp));
    }
}

} // verus!
