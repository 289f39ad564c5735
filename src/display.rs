use vstd::prelude::*;

verus! {

/// Columns of the display.
pub const WIDTH: usize = 64;

/// Rows of the display.
pub const HEIGHT: usize = 32;

/// Number of pixels, row after row.
pub const CELLS: usize = 2048;

/// Bit `col` of a sprite row, the most significant bit being column 0.
pub open spec fn sprite_bit(b: u8, col: int) -> bool {
    (b >> ((7 - col) as u8)) & 1u8 == 1u8
}

/// The sprite row that lands on cell `k` when the sprite's top-left corner
/// is at `(x, y)`, counting with wrap-around.
pub open spec fn row_at(k: int, y: int) -> int {
    (k / WIDTH as int - y) % (HEIGHT as int)
}

/// The sprite column that lands on cell `k`, counting with wrap-around.
pub open spec fn col_at(k: int, x: int) -> int {
    (k % WIDTH as int - x) % (WIDTH as int)
}

/// The cell on which sprite row `r`, column `c` lands.
pub open spec fn cell_of(x: int, y: int, r: int, c: int) -> int {
    ((y + r) % (HEIGHT as int)) * (WIDTH as int) + (x + c) % (WIDTH as int)
}

/// Whether cell `k` is flipped by one of the first `count` bits of the
/// sprite, taken row by row.
pub open spec fn hit_upto(x: int, y: int, sprite: Seq<u8>, k: int, count: int) -> bool {
    let r = row_at(k, y);
    let c = col_at(k, x);
    r < sprite.len() && c < 8 && r * 8 + c < count && sprite_bit(sprite[r], c)
}

/// Whether cell `k` is flipped by the sprite.
pub open spec fn hit(x: int, y: int, sprite: Seq<u8>, k: int) -> bool {
    hit_upto(x, y, sprite, k, sprite.len() as int * 8)
}

/// The cells `d` after the sprite is XORed onto them at `(x, y)`.
pub open spec fn drawn(d: Seq<bool>, x: int, y: int, sprite: Seq<u8>) -> Seq<bool> {
    Seq::new(d.len(), |k: int| d[k] != hit(x, y, sprite, k))
}

/// Whether drawing the sprite turns off a pixel that was on.
pub open spec fn collides(d: Seq<bool>, x: int, y: int, sprite: Seq<u8>) -> bool {
    exists|k: int| 0 <= k < CELLS && d[k] && #[trigger] hit(x, y, sprite, k)
}

/// Cells that are all off.
pub open spec fn blank() -> Seq<bool> {
    Seq::new(CELLS as nat, |k: int| false)
}

proof fn lemma_cell_of(x: int, y: int, r: int, c: int)
    requires
        0 <= r < HEIGHT,
        0 <= c < WIDTH,
    ensures
        0 <= cell_of(x, y, r, c) < CELLS,
        row_at(cell_of(x, y, r, c), y) == r,
        col_at(cell_of(x, y, r, c), x) == c,
{
    let k = cell_of(x, y, r, c);
    let a = (y + r) % 32;
    let b = (x + c) % 64;
    assert(k == a * 64 + b);
    assert(k / 64 == a && k % 64 == b) by (nonlinear_arith)
        requires k == a * 64 + b, 0 <= a < 32, 0 <= b < 64;
    assert((a - y) % 32 == r) by (nonlinear_arith)
        requires a == (y + r) % 32, 0 <= r < 32;
    assert((b - x) % 64 == c) by (nonlinear_arith)
        requires b == (x + c) % 64, 0 <= c < 64;
}

proof fn lemma_cell_unique(x: int, y: int, k: int)
    requires
        0 <= k < CELLS,
    ensures
        k == cell_of(x, y, row_at(k, y), col_at(k, x)),
        0 <= row_at(k, y) < HEIGHT,
        0 <= col_at(k, x) < WIDTH,
{
    let a = k / 64;
    let b = k % 64;
    let r = (a - y) % 32;
    let c = (b - x) % 64;
    assert(0 <= a < 32 && 0 <= b < 64 && k == a * 64 + b) by (nonlinear_arith)
        requires 0 <= k < 2048, a == k / 64, b == k % 64;
    assert((y + r) % 32 == a) by (nonlinear_arith)
        requires r == (a - y) % 32, 0 <= a < 32;
    assert((x + c) % 64 == b) by (nonlinear_arith)
        requires c == (b - x) % 64, 0 <= b < 64;
}

/// The 64 x 32 grid of pixels.
#[derive(Debug)]
pub struct Display {
    cells: Vec<bool>,
}

impl View for Display {
    type V = Seq<bool>;

    /// The pixels row after row: pixel `(col, row)` is at `row * 64 + col`.
    closed spec fn view(&self) -> Seq<bool> {
        self.cells@
    }
}

impl Display {
    /// Every cell of the grid holds a pixel.
    pub open spec fn wf(&self) -> bool {
        self@.len() == CELLS
    }

    /// A display with every pixel off.
    pub fn new() -> (r: Display)
        ensures
            r.wf(),
            r@ == blank(),
    {
        let mut cells: Vec<bool> = Vec::new();
        let mut i: usize = 0;
        while i < CELLS
            invariant
                i <= CELLS,
                cells@ == Seq::new(i as nat, |k: int| false),
            decreases CELLS - i,
        {
            cells.push(false);
            i = i + 1;
            assert(cells@ =~= Seq::new(i as nat, |k: int| false));
        }
        Display { cells }
    }

    /// Turns every pixel off.
    pub fn clear(&mut self)
        requires
            old(self).wf(),
        ensures
            final(self).wf(),
            final(self)@ == blank(),
    {
        let mut i: usize = 0;
        while i < CELLS
            invariant
                i <= CELLS,
                self.wf(),
                forall|k: int| 0 <= k < i ==> !#[trigger] self@[k],
            decreases CELLS - i,
        {
            self.cells[i] = false;
            i = i + 1;
        }
        assert(self@ =~= blank());
    }

    /// Whether the pixel at column `x`, row `y` is on.
    pub fn pixel(&self, x: usize, y: usize) -> (r: bool)
        requires
            self.wf(),
            x < WIDTH,
            y < HEIGHT,
        ensures
            r == self@[(y * WIDTH + x) as int],
    {
        self.cells[y * WIDTH + x]
    }

    /// The 64 pixels of row `y`, left to right.
    pub fn row(&self, y: usize) -> (r: Vec<bool>)
        requires
            self.wf(),
            y < HEIGHT,
        ensures
            r@ == self@.subrange((y * WIDTH) as int, (y * WIDTH + WIDTH) as int),
    {
        let start: usize = y * WIDTH;
        let mut r: Vec<bool> = Vec::new();
        let mut i: usize = 0;
        while i < WIDTH
            invariant
                i <= WIDTH,
                start == y * WIDTH,
                y < HEIGHT,
                self.wf(),
                r@ == self@.subrange(start as int, (start + i) as int),
            decreases WIDTH - i,
        {
            r.push(self.cells[start + i]);
            i = i + 1;
            assert(r@ =~= self@.subrange(start as int, (start + i) as int));
        }
        r
    }

    /// XORs the sprite, one byte per row and most significant bit first,
    /// onto the grid with its top-left corner at `(x, y)`. Sprites wrap
    /// around the edges (columns modulo 64, rows modulo 32) rather than
    /// being clipped. Returns whether a pixel that was on was turned off.
    pub fn draw_sprite(&mut self, x: u8, y: u8, sprite: &Vec<u8>) -> (collision: bool)
        requires
            old(self).wf(),
            sprite@.len() < HEIGHT,
        ensures
            final(self).wf(),
            final(self)@ == drawn(old(self)@, x as int, y as int, sprite@),
            collision == collides(old(self)@, x as int, y as int, sprite@),
    {
        let ghost d0 = self@;
        let ghost xi = x as int;
        let ghost yi = y as int;
        let total: usize = sprite.len() * 8;
        let mut collision = false;
        let mut t: usize = 0;
        while t < total
            invariant
                t <= total,
                total == sprite@.len() * 8,
                sprite@.len() < HEIGHT,
                d0.len() == CELLS,
                self.wf(),
                xi == x as int,
                yi == y as int,
                forall|k: int| 0 <= k < CELLS ==>
                    #[trigger] self@[k] == (d0[k] != hit_upto(xi, yi, sprite@, k, t as int)),
                collision == exists|k: int| 0 <= k < CELLS && d0[k]
                    && #[trigger] hit_upto(xi, yi, sprite@, k, t as int),
            decreases total - t,
        {
            let row: usize = t / 8;
            let col: usize = t % 8;
            let ghost ti = t as int;
            let ghost before = self@;
            let ghost coll_before = collision;
            let byte = sprite[row];
            let set = (byte >> (7 - col as u8)) & 1 == 1;
            let k0: usize = ((y as usize + row) % HEIGHT) * WIDTH + (x as usize + col) % WIDTH;
            proof {
                lemma_cell_of(xi, yi, row as int, col as int);
                assert(k0 == cell_of(xi, yi, row as int, col as int));
            }
            assert forall|k: int| 0 <= k < CELLS implies
                #[trigger] hit_upto(xi, yi, sprite@, k, ti + 1)
                    == (hit_upto(xi, yi, sprite@, k, ti) || (k == k0 && set)) by {
                lemma_cell_unique(xi, yi, k);
                if row_at(k, yi) * 8 + col_at(k, xi) == ti && col_at(k, xi) < 8 {
                    assert(row_at(k, yi) == row && col_at(k, xi) == col);
                }
            }
            assert(!hit_upto(xi, yi, sprite@, k0 as int, ti)) by {
                assert(row_at(k0 as int, yi) * 8 + col_at(k0 as int, xi) == ti);
            }
            if set {
                let cur = self.cells[k0];
                if cur {
                    collision = true;
                }
                self.cells[k0] = !cur;
            }
            t = t + 1;
            assert forall|k: int| 0 <= k < CELLS implies
                #[trigger] self@[k] == (d0[k] != hit_upto(xi, yi, sprite@, k, t as int)) by {
                assert(hit_upto(xi, yi, sprite@, k, t as int)
                    == (hit_upto(xi, yi, sprite@, k, ti) || (k == k0 && set)));
            }
            proof {
                if collision {
                    if coll_before {
                        let w = choose|k: int| 0 <= k < CELLS && d0[k]
                            && #[trigger] hit_upto(xi, yi, sprite@, k, ti);
                        assert(hit_upto(xi, yi, sprite@, w, t as int)
                            == (hit_upto(xi, yi, sprite@, w, ti) || (w == k0 && set)));
                    } else {
                        assert(hit_upto(xi, yi, sprite@, k0 as int, t as int)
                            == (hit_upto(xi, yi, sprite@, k0 as int, ti) || set));
                    }
                } else {
                    assert forall|k: int| 0 <= k < CELLS && d0[k] implies
                        !#[trigger] hit_upto(xi, yi, sprite@, k, t as int) by {
                        assert(hit_upto(xi, yi, sprite@, k, t as int)
                            == (hit_upto(xi, yi, sprite@, k, ti) || (k == k0 && set)));
                    }
                }
            }
        }
        assert(self@ =~= drawn(d0, xi, yi, sprite@));
        proof {
            if collision {
                let w = choose|k: int| 0 <= k < CELLS && d0[k]
                    && #[trigger] hit_upto(xi, yi, sprite@, k, total as int);
                assert(hit(xi, yi, sprite@, w));
            } else {
                assert forall|k: int| 0 <= k < CELLS && d0[k] implies
                    !#[trigger] hit(xi, yi, sprite@, k) by {
                    assert(!hit_upto(xi, yi, sprite@, k, total as int));
                }
            }
        }
        collision
    }
}

/// Drawing the same sprite twice at the same place restores the grid; and
/// on a blank grid every pixel the first draw lit is turned off again, the
/// second draw reporting a collision exactly when the sprite has a bit set.
pub proof fn lemma_draw_twice(d: Seq<bool>, x: int, y: int, sprite: Seq<u8>)
    requires
        d.len() == CELLS,
        sprite.len() < HEIGHT,
    ensures
        drawn(drawn(d, x, y, sprite), x, y, sprite) == d,
        d == blank() ==> (collides(drawn(d, x, y, sprite), x, y, sprite) <==>
            exists|r: int, c: int| 0 <= r < sprite.len() && 0 <= c < 8 && #[trigger] sprite_bit(sprite[r], c)),
{
    assert(drawn(drawn(d, x, y, sprite), x, y, sprite) =~= d);
    if d == blank() {
        let d1 = drawn(d, x, y, sprite);
        if exists|r: int, c: int| 0 <= r < sprite.len() && 0 <= c < 8 && #[trigger] sprite_bit(sprite[r], c) {
            let (r, c) = choose|r: int, c: int| 0 <= r < sprite.len() && 0 <= c < 8 && #[trigger] sprite_bit(sprite[r], c);
            lemma_cell_of(x, y, r, c);
            let k = cell_of(x, y, r, c);
            assert(hit(x, y, sprite, k));
            assert(d1[k]);
        }
        if collides(d1, x, y, sprite) {
            let k = choose|k: int| 0 <= k < CELLS && d1[k] && #[trigger] hit(x, y, sprite, k);
            assert(sprite_bit(sprite[row_at(k, y)], col_at(k, x)));
        }
    }
}

} // verus!
