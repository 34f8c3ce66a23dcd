//! The simulation engine: a fixed-size two-dimensional boolean cell buffer
//! with clamped (non-wrapping) neighbor semantics, the standard Life rule,
//! and a run-length renderer that turns the buffer into style-toggle
//! instructions for a display sink.

use vstd::arithmetic::div_mod::{lemma_fundamental_div_mod, lemma_fundamental_div_mod_converse};
use vstd::arithmetic::div_mod::{lemma_div_pos_is_pos, lemma_mod_bound};
use vstd::arithmetic::mul::lemma_mul_inequality;
use vstd::prelude::*;

verus! {

/// One instruction of the rendered output stream: switch the style to
/// inverted, reset the style, or emit one blank glyph for the current cell.
#[derive(Clone, Copy, PartialEq, Eq, Structural, Debug)]
pub enum RenderOp {
    Invert,
    Reset,
    Glyph,
}

/// A generation of the Game of Life: `width * height` cells in row-major
/// order, cell `(x, y)` at index `y * width + x`.
pub struct Board {
    width: usize,
    height: usize,
    pixels: Vec<bool>,
}

pub open spec fn b2i(b: bool) -> int {
    if b {
        1int
    } else {
        0int
    }
}

/// The standard Life rule: a live cell survives with 2 or 3 live neighbors,
/// a dead cell is born with exactly 3.
pub open spec fn life_rule(alive: bool, n: int) -> bool {
    (alive && n == 2) || n == 3
}

/// A cell `(x, y)` maps to the flat index `y * w + x`, which lies inside the
/// buffer and decomposes back into `x` and `y`.
pub proof fn lemma_grid_index(w: int, h: int, x: int, y: int)
    requires
        1 <= w,
        1 <= h,
        0 <= x < w,
        0 <= y < h,
    ensures
        0 <= y * w + x < w * h,
        (y * w + x) % w == x,
        (y * w + x) / w == y,
{
    assert(0 <= y * w + x < w * h) by (nonlinear_arith)
        requires
            1 <= w,
            1 <= h,
            0 <= x < w,
            0 <= y < h,
    ;
    lemma_fundamental_div_mod_converse(y * w + x, w, y, x);
}

/// Any flat index `k` in the buffer decomposes into the coordinates
/// `(k % w, k / w)` of the cell it stores.
pub proof fn lemma_flat_decompose(w: int, h: int, k: int)
    requires
        1 <= w,
        1 <= h,
        0 <= k < w * h,
    ensures
        0 <= k % w < w,
        0 <= k / w < h,
        (k / w) * w + k % w == k,
{
    lemma_mod_bound(k, w);
    lemma_div_pos_is_pos(k, w);
    lemma_fundamental_div_mod(k, w);
    assert(k / w < h) by {
        if k / w >= h {
            lemma_mul_inequality(h, k / w, w);
            assert(w * (k / w) == (k / w) * w) by (nonlinear_arith);
            assert(h * w == w * h) by (nonlinear_arith);
            assert(k >= w * (k / w));
            assert(false);
        }
    }
}

impl Board {
    /// The grid width, as a mathematical integer.
    pub closed spec fn w(self) -> int {
        self.width as int
    }

    /// The grid height, as a mathematical integer.
    pub closed spec fn h(self) -> int {
        self.height as int
    }

    /// The cell buffer, row-major.
    pub closed spec fn cells(self) -> Seq<bool> {
        self.pixels@
    }

    /// Well-formedness: positive dimensions, a cell count that fits the
    /// machine, and a buffer of exactly `width * height` cells.
    pub open spec fn wf(self) -> bool {
        &&& 1 <= self.w()
        &&& 1 <= self.h()
        &&& self.w() * self.h() <= usize::MAX
        &&& self.cells().len() == self.w() * self.h()
    }

    pub open spec fn in_bounds(self, x: int, y: int) -> bool {
        0 <= x < self.w() && 0 <= y < self.h()
    }

    /// The clamped read: the stored cell for in-bounds coordinates, dead for
    /// anything outside the grid. The neighbor rule leans on this clamp at
    /// the edges, which is what keeps the grid from wrapping.
    pub open spec fn sp_cell(self, x: int, y: int) -> bool {
        self.in_bounds(x, y) && self.cells()[y * self.w() + x]
    }

    /// The number of live cells among the up-to-8 in-bounds Moore neighbors
    /// of `(x, y)`; out-of-bounds positions contribute 0 through the clamp.
    pub open spec fn sp_neighbors(self, x: int, y: int) -> int {
        b2i(self.sp_cell(x - 1, y - 1)) + b2i(self.sp_cell(x, y - 1)) + b2i(
            self.sp_cell(x + 1, y - 1),
        ) + b2i(self.sp_cell(x - 1, y)) + b2i(self.sp_cell(x + 1, y)) + b2i(
            self.sp_cell(x - 1, y + 1),
        ) + b2i(self.sp_cell(x, y + 1)) + b2i(self.sp_cell(x + 1, y + 1))
    }

    /// The state of cell `(x, y)` in the next generation.
    pub open spec fn sp_next_at(self, x: int, y: int) -> bool {
        life_rule(self.sp_cell(x, y), self.sp_neighbors(x, y))
    }

    /// The whole next-generation buffer, computed from the current one.
    pub open spec fn sp_next(self) -> Seq<bool> {
        Seq::new((self.w() * self.h()) as nat, |k: int| self.sp_next_at(k % self.w(), k / self.w()))
    }

    /// Creates a grid with every cell dead.
    pub fn with_dimensions(x: usize, y: usize) -> (b: Board)
        requires
            1 <= x,
            1 <= y,
            x * y <= usize::MAX,
        ensures
            b.wf(),
            b.w() == x,
            b.h() == y,
            forall|k: int| 0 <= k < b.cells().len() ==> !b.cells()[k],
    {
        let n = x * y;
        let mut pixels: Vec<bool> = Vec::new();
        let mut i: usize = 0;
        while i < n
            invariant
                i <= n,
                pixels@.len() == i,
                forall|k: int| 0 <= k < i ==> !pixels@[k],
            decreases n - i,
        {
            pixels.push(false);
            i = i + 1;
        }
        Board { width: x, height: y, pixels }
    }

    pub fn width(&self) -> (r: usize)
        ensures
            r == self.w(),
    {
        self.width
    }

    pub fn height(&self) -> (r: usize)
        ensures
            r == self.h(),
    {
        self.height
    }

    /// Reads the cell at `(x, y)`; any coordinate outside the grid reads as
    /// dead rather than failing.
    pub fn cell(&self, x: usize, y: usize) -> (r: bool)
        requires
            self.wf(),
        ensures
            r == self.sp_cell(x as int, y as int),
    {
        if x < self.width && y < self.height {
            proof {
                lemma_grid_index(self.w(), self.h(), x as int, y as int);
            }
            self.pixels[y * self.width + x]
        } else {
            false
        }
    }

    /// Writes the cell at `(x, y)`; unlike reads, writes must be in bounds.
    pub fn set_cell(&mut self, x: usize, y: usize, v: bool)
        requires
            old(self).wf(),
            x < old(self).w(),
            y < old(self).h(),
        ensures
            final (self).wf(),
            final (self).w() == old(self).w(),
            final (self).h() == old(self).h(),
            final (self).cells() == old(self).cells().update(
                y as int * old(self).w() + x as int,
                v,
            ),
    {
        proof {
            lemma_grid_index(self.w(), self.h(), x as int, y as int);
        }
        let i = y * self.width + x;
        self.pixels.set(i, v);
    }

    /// Counts the live cells among the 8 Moore-neighborhood positions of an
    /// in-bounds cell; positions outside the grid count as dead.
    #[verifier::rlimit(50)]
    pub fn neighbors(&self, x: usize, y: usize) -> (n: u8)
        requires
            self.wf(),
            x < self.w(),
            y < self.h(),
        ensures
            n as int == self.sp_neighbors(x as int, y as int),
            n <= 8,
    {
        let mut alive: u8 = 0;

        let (left, top, right, bottom) = (
            x == 0,
            y == 0,
            x == self.width - 1,
            y == self.height - 1,
        );
        // sides

        if !top && self.cell(x, y - 1) {
            alive = alive + 1;
        }
        if !right && self.cell(x + 1, y) {
            alive = alive + 1;
        }
        if !bottom && self.cell(x, y + 1) {
            alive = alive + 1;
        }
        if !left && self.cell(x - 1, y) {
            alive = alive + 1;
        }
        // corners

        if !left && !top && self.cell(x - 1, y - 1) {
            alive = alive + 1;
        }
        if !right && !top && self.cell(x + 1, y - 1) {
            alive = alive + 1;
        }
        if !right && !bottom && self.cell(x + 1, y + 1) {
            alive = alive + 1;
        }
        if !left && !bottom && self.cell(x - 1, y + 1) {
            alive = alive + 1;
        }
        alive
    }

    /// Replaces the whole cell buffer with the given seed pattern, row-major.
    /// The pattern is produced outside the engine (the terminal front end
    /// thresholds a coherent-noise field); whatever it holds, the seeded grid
    /// is exactly that pattern, so seeding is deterministic in it.
    pub fn generate(&mut self, pattern: &Vec<bool>)
        requires
            old(self).wf(),
            pattern@.len() == old(self).w() * old(self).h(),
        ensures
            final (self).wf(),
            final (self).w() == old(self).w(),
            final (self).h() == old(self).h(),
            final (self).cells() == pattern@,
    {
        let mut px: Vec<bool> = Vec::new();
        let mut i: usize = 0;
        let n = pattern.len();
        proof {
            assert(px@ =~= pattern@.subrange(0, 0));
        }
        while i < n
            invariant
                i <= n,
                n == pattern@.len(),
                px@ == pattern@.subrange(0, i as int),
            decreases n - i,
        {
            px.push(pattern[i]);
            proof {
                assert(px@ =~= pattern@.subrange(0, i + 1));
            }
            i = i + 1;
        }
        proof {
            assert(px@ =~= pattern@);
        }
        self.pixels = px;
    }

    /// Advances the grid by one generation: every cell's next state is the
    /// Life rule applied to the pre-advance snapshot, computed into a fresh
    /// buffer so that no cell ever reads an already-updated neighbor.
    #[verifier::loop_isolation(false)]
    pub fn update(&mut self)
        requires
            old(self).wf(),
        ensures
            final (self).wf(),
            final (self).w() == old(self).w(),
            final (self).h() == old(self).h(),
            final (self).cells() == old(self).sp_next(),
            forall|x: int, y: int|
                old(self).in_bounds(x, y) ==> final (self).sp_cell(x, y) == old(self).sp_next_at(
                    x,
                    y,
                ),
    {
        let mut next: Vec<bool> = Vec::new();
        let mut y: usize = 0;
        while y < self.height
            invariant
                y <= self.h(),
                next@.len() == y * self.w(),
                forall|k: int| 0 <= k < next@.len() ==> next@[k] == self.sp_next()[k],
            decreases self.h() - y,
        {
            let mut x: usize = 0;
            proof {
                lemma_mul_inequality(y as int, self.h(), self.w());
                assert(y * self.w() == self.w() * y) by (nonlinear_arith);
                assert(self.h() * self.w() == self.w() * self.h()) by (nonlinear_arith);
            }
            while x < self.width
                invariant
                    y < self.h(),
                    x <= self.w(),
                    next@.len() == y * self.w() + x,
                    forall|k: int| 0 <= k < next@.len() ==> next@[k] == self.sp_next()[k],
                decreases self.w() - x,
            {
                proof {
                    lemma_grid_index(self.w(), self.h(), x as int, y as int);
                }
                let alive = self.cell(x, y);
                let n = self.neighbors(x, y);
                let v = (alive && n == 2) || n == 3;
                next.push(v);
                x = x + 1;
            }
            proof {
                assert((y as int + 1) * self.w() == y as int * self.w() + self.w())
                    by (nonlinear_arith);
            }
            y = y + 1;
        }
        proof {
            assert(self.h() * self.w() == self.w() * self.h()) by (nonlinear_arith);
            assert(next@ =~= self.sp_next());
        }
        self.pixels = next;
        proof {
            assert forall|x: int, y: int| old(self).in_bounds(x, y) implies self.sp_cell(x, y)
                == old(self).sp_next_at(x, y) by {
                lemma_grid_index(old(self).w(), old(self).h(), x, y);
            }
        }
    }
}

/// The `last` state that the renderer carries into cell `i`: the value of
/// cell `i - 1`, or dead before the first cell.
pub open spec fn sp_prev(cells: Seq<bool>, i: int) -> bool {
    i > 0 && cells[i - 1]
}

/// The instructions one cell contributes: a style toggle whenever the
/// live/dead run changes, then one blank glyph.
pub open spec fn sp_render_step(prev: bool, cur: bool) -> Seq<RenderOp> {
    if cur && !prev {
        seq![RenderOp::Invert, RenderOp::Glyph]
    } else if !cur && prev {
        seq![RenderOp::Reset, RenderOp::Glyph]
    } else {
        seq![RenderOp::Glyph]
    }
}

/// The instructions for the first `n` cells of the buffer.
pub open spec fn sp_render_prefix(cells: Seq<bool>, n: int) -> Seq<RenderOp>
    decreases n,
{
    if n <= 0 {
        Seq::empty()
    } else {
        sp_render_prefix(cells, n - 1) + sp_render_step(sp_prev(cells, n - 1), cells[n - 1])
    }
}

/// The full rendered stream: one glyph per cell in row-major order, style
/// toggles collapsed to run boundaries, and a final reset if the buffer ends
/// on a live run.
pub open spec fn sp_render(cells: Seq<bool>) -> Seq<RenderOp> {
    sp_render_prefix(cells, cells.len() as int) + if cells.len() > 0 && cells[cells.len() - 1] {
        seq![RenderOp::Reset]
    } else {
        Seq::empty()
    }
}

/// The number of glyphs in a rendered stream: the number of grid cells it
/// draws.
pub open spec fn sp_glyphs(ops: Seq<RenderOp>) -> int
    decreases ops.len(),
{
    if ops.len() == 0 {
        0int
    } else {
        sp_glyphs(ops.drop_last()) + b2i(ops.last() == RenderOp::Glyph)
    }
}

impl Board {
    /// Produces the display instructions for the current generation.
    pub fn render(&self) -> (ops: Vec<RenderOp>)
        ensures
            ops@ == sp_render(self.cells()),
    {
        let mut ops: Vec<RenderOp> = Vec::new();
        let mut last = false;
        let mut i: usize = 0;
        let n = self.pixels.len();
        while i < n
            invariant
                i <= n,
                n == self.cells().len(),
                last == sp_prev(self.cells(), i as int),
                ops@ == sp_render_prefix(self.cells(), i as int),
            decreases n - i,
        {
            let cur = self.pixels[i];
            if cur && !last {
                ops.push(RenderOp::Invert);
                ops.push(RenderOp::Glyph);
            } else if !cur && last {
                ops.push(RenderOp::Reset);
                ops.push(RenderOp::Glyph);
            } else {
                ops.push(RenderOp::Glyph);
            }
            proof {
                assert(ops@ =~= sp_render_prefix(self.cells(), i + 1));
            }
            last = cur;
            i = i + 1;
        }
        if last {
            ops.push(RenderOp::Reset);
        }
        proof {
            assert(ops@ =~= sp_render(self.cells()));
        }
        ops
    }
}

} // verus!
