use vstd::prelude::*;
use vstd::arithmetic::div_mod::lemma_fundamental_div_mod_converse;
use vstd::arithmetic::mul::lemma_mul_inequality;
use crate::torus::{
    lemma_wrap_bounds, lemma_wrap_identity, lemma_wrap_idempotent, lemma_wrap_multiples_vanish,
    lemma_wrap_step_changes, wrap, wrap_coord,
};

verus! {

/// A dense boolean grid over a `w x h` torus: every coordinate access wraps
/// by the Euclidean modulo into `[0, w) x [0, h)`, so the edges have no
/// special case. Cells live at flat index `x + y * w`.
pub struct Life {
    pub w: i64,
    pub h: i64,
    pub cells: Vec<bool>,
}

impl Life {
    /// Positive dimensions, a backing array of exactly `w * h` cells, and a
    /// cell count the machine can address.
    pub open spec fn wf(self) -> bool {
        &&& 0 < self.w
        &&& 0 < self.h
        &&& self.w * self.h <= i64::MAX
        &&& self.w * self.h <= usize::MAX
        &&& self.cells@.len() == self.w * self.h
    }

    /// Flat index of the wrapped coordinate pair.
    pub open spec fn idx_of(self, x: int, y: int) -> int {
        wrap_coord(x, self.w as int) + wrap_coord(y, self.h as int) * self.w
    }

    /// Liveness of the cell addressed by arbitrary integer coordinates,
    /// wrapped onto the torus.
    pub open spec fn cell(self, x: int, y: int) -> bool {
        self.cells@[self.idx_of(x, y)]
    }

    pub proof fn lemma_idx_bounds(self, x: int, y: int)
        requires
            0 < self.w,
            0 < self.h,
        ensures
            0 <= self.idx_of(x, y) < self.w * self.h,
            0 <= wrap_coord(y, self.h as int) * self.w,
    {
        lemma_wrap_bounds(x, self.w as int);
        lemma_wrap_bounds(y, self.h as int);
        let wx = wrap_coord(x, self.w as int);
        let wy = wrap_coord(y, self.h as int);
        assert(0 <= wy * self.w && wx + wy * self.w < self.w * self.h) by (nonlinear_arith)
            requires
                0 <= wx < self.w,
                0 <= wy < self.h,
        ;
    }

    /// Wrapping the coordinates first reads the same cell: wrapping is
    /// idempotent in each dimension.
    pub proof fn lemma_cell_wraps(self, x: int, y: int)
        requires
            0 < self.w,
            0 < self.h,
        ensures
            self.cell(x, y) == self.cell(
                wrap_coord(x, self.w as int),
                wrap_coord(y, self.h as int),
            ),
    {
        lemma_wrap_idempotent(x, self.w as int);
        lemma_wrap_idempotent(y, self.h as int);
    }

    /// Distinct in-range coordinate pairs occupy distinct flat indexes.
    pub proof fn lemma_idx_injective(self, x1: int, y1: int, x2: int, y2: int)
        requires
            0 < self.w,
            0 < self.h,
            0 <= x1 < self.w,
            0 <= y1 < self.h,
            0 <= x2 < self.w,
            0 <= y2 < self.h,
            x1 + y1 * self.w == x2 + y2 * self.w,
        ensures
            x1 == x2,
            y1 == y2,
    {
        let w = self.w as int;
        let n = x1 + y1 * w;
        lemma_fundamental_div_mod_converse(n, w, y1, x1);
        lemma_fundamental_div_mod_converse(n, w, y2, x2);
    }

    /// A grid with the given dimensions whose cells are all dead.
    pub fn new(w: i64, h: i64) -> (g: Life)
        requires
            0 < w,
            0 < h,
            w * h <= i64::MAX,
            w * h <= usize::MAX,
        ensures
            g.wf(),
            g.w == w,
            g.h == h,
            forall|x: int, y: int| !g.cell(x, y),
    {
        proof {
            assert(w <= w * h && h <= w * h) by (nonlinear_arith)
                requires
                    0 < w,
                    0 < h,
            ;
        }
        let n: usize = (w as usize) * (h as usize);
        let mut cells: Vec<bool> = Vec::new();
        while cells.len() < n
            invariant
                cells@.len() <= n,
                forall|k: int| 0 <= k < cells@.len() ==> !cells@[k],
            decreases n - cells@.len(),
        {
            cells.push(false);
        }
        let g = Life { w, h, cells };
        proof {
            assert forall|x: int, y: int| !g.cell(x, y) by {
                g.lemma_idx_bounds(x, y);
            }
        }
        g
    }

    /// Liveness of the cell at `(x, y)`; the coordinates may be negative or
    /// out of range and are wrapped onto the torus.
    pub fn get(&self, x: i64, y: i64) -> (alive: bool)
        requires
            self.wf(),
        ensures
            alive == self.cell(x as int, y as int),
    {
        let wx = wrap(x, self.w);
        let wy = wrap(y, self.h);
        proof {
            self.lemma_idx_bounds(x as int, y as int);
        }
        self.cells[(wx + wy * self.w) as usize]
    }

    /// Writes liveness at `(x, y)` (wrapped onto the torus) and changes no
    /// other cell.
    pub fn set(&mut self, x: i64, y: i64, alive: bool)
        requires
            old(self).wf(),
        ensures
            final(self).wf(),
            final(self).w == old(self).w,
            final(self).h == old(self).h,
            final(self).cells@ == old(self).cells@.update(
                old(self).idx_of(x as int, y as int),
                alive,
            ),
            final(self).cell(x as int, y as int) == alive,
            forall|i: int, j: int|
                0 <= i < old(self).w && 0 <= j < old(self).h && !(i == wrap_coord(
                    x as int,
                    old(self).w as int,
                ) && j == wrap_coord(y as int, old(self).h as int)) ==> final(self).cell(i, j)
                    == old(self).cell(i, j),
    {
        let wx = wrap(x, self.w);
        let wy = wrap(y, self.h);
        proof {
            self.lemma_idx_bounds(x as int, y as int);
        }
        let idx = (wx + wy * self.w) as usize;
        self.cells[idx] = alive;
        proof {
            let g = *self;
            let o = *old(self);
            assert forall|i: int, j: int|
                0 <= i < o.w && 0 <= j < o.h && !(i == wrap_coord(x as int, o.w as int) && j
                    == wrap_coord(y as int, o.h as int)) implies g.cell(i, j) == o.cell(i, j) by {
                lemma_wrap_identity(i, o.w as int);
                lemma_wrap_identity(j, o.h as int);
                o.lemma_idx_bounds(i, j);
                if i + j * o.w == wx + wy * o.w {
                    o.lemma_idx_injective(i, j, wx as int, wy as int);
                }
            }
        }
    }

    /// 1 if the (wrapped) cell is alive, else 0.
    pub open spec fn live_at(self, x: int, y: int) -> int {
        if self.cell(x, y) {
            1
        } else {
            0
        }
    }

    /// Number of live cells among the eight neighbours of `(x, y)`: the
    /// offsets `(dx, dy)` with `dx, dy` in `{-1, 0, 1}` except `(0, 0)`
    /// itself, each wrapped onto the torus.
    pub open spec fn live_neighbours(self, x: int, y: int) -> int {
        self.live_at(x - 1, y - 1) + self.live_at(x - 1, y) + self.live_at(x - 1, y + 1)
            + self.live_at(x, y - 1) + self.live_at(x, y + 1) + self.live_at(x + 1, y - 1)
            + self.live_at(x + 1, y) + self.live_at(x + 1, y + 1)
    }

    /// Sums liveness over the eight neighbour offsets; never reads the cell
    /// itself. The coordinate bounds only keep the offset arithmetic inside
    /// the machine integers.
    pub fn count_live_neighbours(&self, x: i64, y: i64) -> (n: usize)
        requires
            self.wf(),
            i64::MIN < x < i64::MAX,
            i64::MIN < y < i64::MAX,
        ensures
            n == self.live_neighbours(x as int, y as int),
            n <= 8,
    {
        let mut n: usize = 0;
        if self.get(x - 1, y - 1) {
            n += 1;
        }
        if self.get(x - 1, y) {
            n += 1;
        }
        if self.get(x - 1, y + 1) {
            n += 1;
        }
        if self.get(x, y - 1) {
            n += 1;
        }
        if self.get(x, y + 1) {
            n += 1;
        }
        if self.get(x + 1, y - 1) {
            n += 1;
        }
        if self.get(x + 1, y) {
            n += 1;
        }
        if self.get(x + 1, y + 1) {
            n += 1;
        }
        n
    }

    /// The B3/S23 rule for one cell: born with exactly three live
    /// neighbours, kept with exactly two, dead otherwise.
    pub open spec fn step_cell(self, x: int, y: int) -> bool {
        self.live_neighbours(x, y) == 3 || (self.live_neighbours(x, y) == 2 && self.cell(x, y))
    }

    /// The next generation: a grid of the same dimensions where every cell
    /// follows the B3/S23 rule with wrap-around neighbour lookup.
    pub fn step(&self) -> (g: Life)
        requires
            self.wf(),
        ensures
            g.wf(),
            g.w == self.w,
            g.h == self.h,
            forall|x: int, y: int|
                0 <= x < self.w && 0 <= y < self.h ==> g.cell(x, y) == self.step_cell(x, y),
    {
        let mut cells: Vec<bool> = Vec::new();
        let mut y: i64 = 0;
        while y < self.h
            invariant
                self.wf(),
                0 <= y <= self.h,
                cells@.len() == y * self.w,
                forall|i: int, j: int|
                    0 <= i < self.w && 0 <= j < y ==> cells@[i + j * self.w] == self.step_cell(
                        i,
                        j,
                    ),
            decreases self.h - y,
        {
            let mut x: i64 = 0;
            while x < self.w
                invariant
                    self.wf(),
                    0 <= y < self.h,
                    0 <= x <= self.w,
                    cells@.len() == y * self.w + x,
                    forall|i: int, j: int|
                        0 <= i < self.w && 0 <= j < y ==> cells@[i + j * self.w] == self.step_cell(
                            i,
                            j,
                        ),
                    forall|i: int|
                        0 <= i < x ==> cells@[i + y * self.w] == self.step_cell(i, y as int),
                decreases self.w - x,
            {
                proof {
                    assert(y * self.w + x < self.w * self.h) by (nonlinear_arith)
                        requires
                            0 <= x < self.w,
                            0 <= y < self.h,
                    ;
                }
                let count = self.count_live_neighbours(x, y);
                let alive = count == 3 || (count == 2 && self.get(x, y));
                cells.push(alive);
                x += 1;
                proof {
                    assert forall|i: int, j: int| 0 <= i < self.w && 0 <= j < y implies cells@[i + j
                        * self.w] == self.step_cell(i, j) by {
                        lemma_mul_inequality(j + 1, y as int, self.w as int);
                        assert((j + 1) * self.w == j * self.w + self.w) by (nonlinear_arith);
                        assert(0 <= j * self.w) by (nonlinear_arith)
                            requires
                                0 <= j,
                                0 < self.w,
                        ;
                    }
                }
            }
            proof {
                assert((y + 1) * self.w == y * self.w + self.w) by (nonlinear_arith);
            }
            y += 1;
        }
        let g = Life { w: self.w, h: self.h, cells };
        proof {
            assert(g.cells@.len() == g.w * g.h) by (nonlinear_arith)
                requires
                    g.cells@.len() == g.h * g.w,
            ;
            assert forall|x: int, y: int|
                0 <= x < self.w && 0 <= y < self.h implies g.cell(x, y) == self.step_cell(
                x,
                y,
            ) by {
                lemma_wrap_identity(x, self.w as int);
                lemma_wrap_identity(y, self.h as int);
            }
        }
        g
    }

    /// Toroidal periodicity: shifting the coordinates by any multiple of the
    /// corresponding dimension addresses the same cell.
    pub proof fn lemma_toroidal_periodicity(self, x: int, y: int, k: int)
        requires
            0 < self.w,
            0 < self.h,
        ensures
            self.cell(x + k * self.w, y + k * self.h) == self.cell(x, y),
    {
        lemma_wrap_multiples_vanish(x, k, self.w as int);
        lemma_wrap_multiples_vanish(y, k, self.h as int);
    }

    /// The neighbour count sums exactly eight positions, each contributing
    /// zero or one.
    pub proof fn lemma_neighbour_count_bounds(self, x: int, y: int)
        ensures
            0 <= self.live_neighbours(x, y) <= 8,
    {
    }

    /// Grids that agree everywhere except at the in-range cell `(cx, cy)`
    /// assign the same liveness to every other coordinate, wrapped or not.
    proof fn lemma_cell_but_centre(self, other: Life, cx: int, cy: int, a: int, b: int)
        requires
            self.wf(),
            other.wf(),
            self.w == other.w,
            self.h == other.h,
            0 <= cx < self.w,
            0 <= cy < self.h,
            forall|i: int, j: int|
                0 <= i < self.w && 0 <= j < self.h && !(i == cx && j == cy) ==> self.cell(i, j)
                    == other.cell(i, j),
            wrap_coord(a, self.w as int) != cx || wrap_coord(b, self.h as int) != cy,
        ensures
            self.cell(a, b) == other.cell(a, b),
    {
        lemma_wrap_bounds(a, self.w as int);
        lemma_wrap_bounds(b, self.h as int);
        self.lemma_cell_wraps(a, b);
        other.lemma_cell_wraps(a, b);
    }

    /// The neighbour count never reads the cell itself: two grids that agree
    /// on every cell except the one at in-range `(x, y)` count the same
    /// neighbours there. (On a torus with a dimension of 1 a cell is its own
    /// neighbour, so both dimensions must be at least 2.)
    pub proof fn lemma_neighbours_ignore_centre(self, other: Life, x: int, y: int)
        requires
            self.wf(),
            other.wf(),
            self.w == other.w,
            self.h == other.h,
            2 <= self.w,
            2 <= self.h,
            0 <= x < self.w,
            0 <= y < self.h,
            forall|i: int, j: int|
                0 <= i < self.w && 0 <= j < self.h && !(i == x && j == y) ==> self.cell(i, j)
                    == other.cell(i, j),
        ensures
            self.live_neighbours(x, y) == other.live_neighbours(x, y),
    {
        let w = self.w as int;
        let h = self.h as int;
        lemma_wrap_identity(x, w);
        lemma_wrap_identity(y, h);
        lemma_wrap_step_changes(x, w);
        lemma_wrap_step_changes(y, h);
        self.lemma_cell_but_centre(other, x, y, x - 1, y - 1);
        self.lemma_cell_but_centre(other, x, y, x - 1, y);
        self.lemma_cell_but_centre(other, x, y, x - 1, y + 1);
        self.lemma_cell_but_centre(other, x, y, x, y - 1);
        self.lemma_cell_but_centre(other, x, y, x, y + 1);
        self.lemma_cell_but_centre(other, x, y, x + 1, y - 1);
        self.lemma_cell_but_centre(other, x, y, x + 1, y);
        self.lemma_cell_but_centre(other, x, y, x + 1, y + 1);
    }

    /// Stepping is deterministic and pure: it reads nothing but the
    /// dimensions and the cells, so grids that agree on those step alike.
    pub proof fn lemma_step_deterministic(self, other: Life)
        requires
            self.w == other.w,
            self.h == other.h,
            self.cells@ == other.cells@,
        ensures
            forall|x: int, y: int| self.step_cell(x, y) == other.step_cell(x, y),
    {
    }

    /// Stepping an all-dead grid yields an all-dead grid: no cell has three
    /// live neighbours, so none is born.
    pub proof fn lemma_step_of_all_dead(self)
        requires
            self.wf(),
            forall|i: int, j: int| 0 <= i < self.w && 0 <= j < self.h ==> !self.cell(i, j),
        ensures
            forall|x: int, y: int| !self.step_cell(x, y),
    {
        assert forall|a: int, b: int| !self.cell(a, b) by {
            lemma_wrap_bounds(a, self.w as int);
            lemma_wrap_bounds(b, self.h as int);
            self.lemma_cell_wraps(a, b);
        }
    }

    /// On a grid whose one live cell lies at in-range `(cx, cy)`, the
    /// wrapped liveness of any coordinate pair says whether it addresses
    /// that cell.
    proof fn lemma_single_live_value(self, cx: int, cy: int, a: int, b: int)
        requires
            self.wf(),
            0 <= cx < self.w,
            0 <= cy < self.h,
            self.cell(cx, cy),
            forall|i: int, j: int|
                0 <= i < self.w && 0 <= j < self.h && !(i == cx && j == cy) ==> !self.cell(i, j),
        ensures
            self.cell(a, b) == (wrap_coord(a, self.w as int) == cx && wrap_coord(b, self.h as int)
                == cy),
    {
        lemma_wrap_bounds(a, self.w as int);
        lemma_wrap_bounds(b, self.h as int);
        self.lemma_cell_wraps(a, b);
        lemma_wrap_identity(cx, self.w as int);
        lemma_wrap_identity(cy, self.h as int);
    }

    /// An isolated live cell dies and gives birth to nothing: a grid with a
    /// single live cell steps to an all-dead grid. (Dimensions of at least 2
    /// keep a cell from being its own neighbour; on a 1-wide torus a lone
    /// cell is its own neighbour twice and survives.)
    pub proof fn lemma_isolated_cell_dies(self, cx: int, cy: int)
        requires
            self.wf(),
            2 <= self.w,
            2 <= self.h,
            0 <= cx < self.w,
            0 <= cy < self.h,
            self.cell(cx, cy),
            forall|i: int, j: int|
                0 <= i < self.w && 0 <= j < self.h && !(i == cx && j == cy) ==> !self.cell(i, j),
        ensures
            forall|x: int, y: int| !self.step_cell(x, y),
    {
        let w = self.w as int;
        let h = self.h as int;
        assert forall|x: int, y: int| !self.step_cell(x, y) by {
            lemma_wrap_step_changes(x, w);
            lemma_wrap_step_changes(y, h);
            self.lemma_single_live_value(cx, cy, x, y);
            self.lemma_single_live_value(cx, cy, x - 1, y - 1);
            self.lemma_single_live_value(cx, cy, x - 1, y);
            self.lemma_single_live_value(cx, cy, x - 1, y + 1);
            self.lemma_single_live_value(cx, cy, x, y - 1);
            self.lemma_single_live_value(cx, cy, x, y + 1);
            self.lemma_single_live_value(cx, cy, x + 1, y - 1);
            self.lemma_single_live_value(cx, cy, x + 1, y);
            self.lemma_single_live_value(cx, cy, x + 1, y + 1);
        }
    }
}

} // verus!
