//! Grid-level laws of the simulation engine, stated over the spec view of
//! `Board` and proved once and for all: determinism of seeding, neighbor
//! count bounds, the rule table, the block still life, the blinker
//! oscillator, and the non-wrapping boundary.

use crate::board::{lemma_flat_decompose, lemma_grid_index, life_rule, Board};
use crate::board::{sp_glyphs, sp_prev, sp_render, sp_render_prefix, sp_render_step, RenderOp};
use vstd::prelude::*;

verus! {

/// Glyph counting distributes over concatenation.
pub proof fn lemma_glyphs_add(a: Seq<RenderOp>, b: Seq<RenderOp>)
    ensures
        sp_glyphs(a + b) == sp_glyphs(a) + sp_glyphs(b),
    decreases b.len(),
{
    if b.len() == 0 {
        assert(a + b =~= a);
    } else {
        lemma_glyphs_add(a, b.drop_last());
        assert((a + b).drop_last() =~= a + b.drop_last());
        assert((a + b).last() == b.last());
    }
}

/// Each cell's contribution to the rendered stream holds exactly one glyph,
/// whether or not it also toggles the style.
pub proof fn lemma_glyphs_step(prev: bool, cur: bool)
    ensures
        sp_glyphs(sp_render_step(prev, cur)) == 1,
{
    reveal_with_fuel(sp_glyphs, 3);
    assert(seq![RenderOp::Invert, RenderOp::Glyph].drop_last() =~= seq![RenderOp::Invert]);
    assert(seq![RenderOp::Reset, RenderOp::Glyph].drop_last() =~= seq![RenderOp::Reset]);
    assert(seq![RenderOp::Invert].drop_last() =~= Seq::<RenderOp>::empty());
    assert(seq![RenderOp::Reset].drop_last() =~= Seq::<RenderOp>::empty());
    assert(seq![RenderOp::Glyph].drop_last() =~= Seq::<RenderOp>::empty());
}

/// The rendered prefix for `n` cells holds exactly `n` glyphs.
pub proof fn lemma_prefix_glyphs(cells: Seq<bool>, n: int)
    requires
        0 <= n <= cells.len(),
    ensures
        sp_glyphs(sp_render_prefix(cells, n)) == n,
    decreases n,
{
    if n > 0 {
        lemma_prefix_glyphs(cells, n - 1);
        lemma_glyphs_add(
            sp_render_prefix(cells, n - 1),
            sp_render_step(sp_prev(cells, n - 1), cells[n - 1]),
        );
        lemma_glyphs_step(sp_prev(cells, n - 1), cells[n - 1]);
    }
}

/// The renderer draws exactly one glyph per grid cell: however the style
/// toggles collapse, the stream shows every cell once, in row-major order.
pub proof fn lemma_render_one_glyph_per_cell(cells: Seq<bool>)
    ensures
        sp_glyphs(sp_render(cells)) == cells.len(),
{
    let n = cells.len() as int;
    lemma_prefix_glyphs(cells, n);
    if cells.len() > 0 && cells[n - 1] {
        lemma_glyphs_add(sp_render_prefix(cells, n), seq![RenderOp::Reset]);
        assert(sp_glyphs(seq![RenderOp::Reset]) == 0) by {
            reveal_with_fuel(sp_glyphs, 2);
            assert(seq![RenderOp::Reset].drop_last() =~= Seq::<RenderOp>::empty());
        }
    } else {
        lemma_glyphs_add(sp_render_prefix(cells, n), Seq::empty());
        assert(sp_glyphs(Seq::<RenderOp>::empty()) == 0);
    }
}

/// Seeding is deterministic: the seeded buffer is a function of the pattern
/// alone (see `Board::generate`), so two boards of the same dimensions
/// seeded from the same pattern hold the same cells everywhere.
pub proof fn lemma_seed_deterministic(a: Board, b: Board, p: Seq<bool>)
    requires
        a.wf(),
        b.wf(),
        a.w() == b.w(),
        a.h() == b.h(),
        a.cells() == p,
        b.cells() == p,
    ensures
        a.cells() == b.cells(),
        forall|x: int, y: int| #[trigger] a.sp_cell(x, y) == b.sp_cell(x, y),
{
}

/// Neighbor counts lie in [0, 8]; a corner cell has at most 3 in-bounds
/// neighbors and a cell on any edge at most 5.
pub proof fn lemma_neighbor_bounds(b: Board, x: int, y: int)
    requires
        b.wf(),
        b.in_bounds(x, y),
    ensures
        0 <= b.sp_neighbors(x, y) <= 8,
        (x == 0 || x == b.w() - 1) && (y == 0 || y == b.h() - 1) ==> b.sp_neighbors(x, y) <= 3,
        x == 0 || x == b.w() - 1 || y == 0 || y == b.h() - 1 ==> b.sp_neighbors(x, y) <= 5,
{
}

/// The rule table: a live cell with 2 or 3 live neighbors survives and dies
/// with any other count; a dead cell is born with exactly 3 and otherwise
/// stays dead.
pub proof fn lemma_rule_table(n: int)
    requires
        0 <= n <= 8,
    ensures
        life_rule(true, 2),
        life_rule(true, 3),
        n != 2 && n != 3 ==> !life_rule(true, n),
        life_rule(false, 3),
        n != 3 ==> !life_rule(false, n),
{
}

/// Two well-formed boards of the same dimensions whose clamped reads agree
/// everywhere hold the same buffer.
pub proof fn lemma_cells_equal(a: Board, b: Board)
    requires
        a.wf(),
        b.wf(),
        a.w() == b.w(),
        a.h() == b.h(),
        forall|x: int, y: int| #[trigger] a.sp_cell(x, y) == b.sp_cell(x, y),
    ensures
        a.cells() == b.cells(),
{
    assert forall|k: int| 0 <= k < a.cells().len() implies a.cells()[k] == b.cells()[k] by {
        lemma_flat_decompose(a.w(), a.h(), k);
        let x = k % a.w();
        let y = k / a.w();
        assert(a.sp_cell(x, y) == b.sp_cell(x, y));
        assert(a.cells()[k] == a.sp_cell(x, y));
        assert(b.cells()[k] == b.sp_cell(x, y));
    }
    assert(a.cells() =~= b.cells());
}

/// The board holds a single 2×2 block of live cells with its top-left corner
/// at `(i, j)`, every other cell dead.
pub open spec fn lone_block(b: Board, i: int, j: int) -> bool {
    forall|x: int, y: int| #[trigger] b.sp_cell(x, y) == (i <= x <= i + 1 && j <= y <= j + 1)
}

/// The block is a still life: each of its four cells sees exactly the other
/// three, and no dead cell sees three live ones, so an advance leaves the
/// buffer unchanged.
#[verifier::rlimit(50)]
pub proof fn lemma_block_still_life(b: Board, i: int, j: int)
    requires
        b.wf(),
        0 <= i,
        i + 1 < b.w(),
        0 <= j,
        j + 1 < b.h(),
        lone_block(b, i, j),
    ensures
        b.sp_next() == b.cells(),
{
    assert forall|k: int| 0 <= k < b.cells().len() implies b.sp_next()[k] == b.cells()[k] by {
        lemma_flat_decompose(b.w(), b.h(), k);
        let x = k % b.w();
        let y = k / b.w();
        assert(b.cells()[k] == b.sp_cell(x, y));
        assert(b.sp_next_at(x, y) == b.sp_cell(x, y));
    }
    assert(b.sp_next() =~= b.cells());
}

/// The board holds a single horizontal run of three live cells starting at
/// `(i, j)`, every other cell dead.
pub open spec fn lone_row3(b: Board, i: int, j: int) -> bool {
    forall|x: int, y: int| #[trigger] b.sp_cell(x, y) == (y == j && i <= x <= i + 2)
}

/// The board holds a single vertical run of three live cells starting at
/// `(i, j)`, every other cell dead.
pub open spec fn lone_col3(b: Board, i: int, j: int) -> bool {
    forall|x: int, y: int| #[trigger] b.sp_cell(x, y) == (x == i && j <= y <= j + 2)
}

/// One advance turns a horizontal blinker with margin into the vertical
/// blinker through its center.
#[verifier::rlimit(50)]
pub proof fn lemma_blinker_flips(b: Board, nb: Board, i: int, j: int)
    requires
        b.wf(),
        nb.wf(),
        nb.w() == b.w(),
        nb.h() == b.h(),
        0 <= i,
        i + 2 < b.w(),
        1 <= j,
        j + 1 < b.h(),
        lone_row3(b, i, j),
        nb.cells() == b.sp_next(),
    ensures
        lone_col3(nb, i + 1, j - 1),
{
    assert forall|x: int, y: int|
        #[trigger] nb.sp_cell(x, y) == (x == i + 1 && j - 1 <= y <= j + 1) by {
        if nb.in_bounds(x, y) {
            lemma_grid_index(b.w(), b.h(), x, y);
            assert(nb.sp_cell(x, y) == b.sp_next_at(x, y));
        }
    }
}

/// One advance turns a vertical blinker with margin into the horizontal
/// blinker through its center.
#[verifier::rlimit(50)]
pub proof fn lemma_blinker_flips_back(b: Board, nb: Board, i: int, j: int)
    requires
        b.wf(),
        nb.wf(),
        nb.w() == b.w(),
        nb.h() == b.h(),
        1 <= i,
        i + 1 < b.w(),
        0 <= j,
        j + 2 < b.h(),
        lone_col3(b, i, j),
        nb.cells() == b.sp_next(),
    ensures
        lone_row3(nb, i - 1, j + 1),
{
    assert forall|x: int, y: int|
        #[trigger] nb.sp_cell(x, y) == (y == j + 1 && i - 1 <= x <= i + 1) by {
        if nb.in_bounds(x, y) {
            lemma_grid_index(b.w(), b.h(), x, y);
            assert(nb.sp_cell(x, y) == b.sp_next_at(x, y));
        }
    }
}

/// The blinker oscillates with period two: advancing a horizontal blinker
/// once yields the vertical blinker, and advancing again restores the
/// original buffer.
pub proof fn lemma_blinker_oscillates(b0: Board, b1: Board, b2: Board, i: int, j: int)
    requires
        b0.wf(),
        b1.wf(),
        b2.wf(),
        b1.w() == b0.w(),
        b1.h() == b0.h(),
        b2.w() == b0.w(),
        b2.h() == b0.h(),
        0 <= i,
        i + 2 < b0.w(),
        1 <= j,
        j + 1 < b0.h(),
        lone_row3(b0, i, j),
        b1.cells() == b0.sp_next(),
        b2.cells() == b1.sp_next(),
    ensures
        lone_col3(b1, i + 1, j - 1),
        lone_row3(b2, i, j),
        b2.cells() == b0.cells(),
{
    lemma_blinker_flips(b0, b1, i, j);
    lemma_blinker_flips_back(b1, b2, i + 1, j - 1);
    lemma_cells_equal(b2, b0);
}

/// The board holds a single live cell at the origin, every other cell dead.
pub open spec fn lone_origin(b: Board) -> bool {
    forall|x: int, y: int| #[trigger] b.sp_cell(x, y) == (x == 0 && y == 0)
}

/// The grid does not wrap: a live cell at (0,0) contributes to the neighbor
/// counts of exactly (0,1), (1,0) and (1,1), never to a cell on a far edge.
pub proof fn lemma_origin_contribution(b: Board, x: int, y: int)
    requires
        b.wf(),
        lone_origin(b),
        b.in_bounds(x, y),
    ensures
        b.sp_neighbors(x, y) == if (x == 0 && y == 1) || (x == 1 && y == 0) || (x == 1 && y == 1) {
            1int
        } else {
            0int
        },
{
}

/// On a 1×1 grid the single cell has zero in-bounds neighbors — never
/// three — so whatever it was seeded to, one advance leaves the whole grid
/// dead, and it stays dead forever.
pub proof fn lemma_single_cell_dies(b: Board)
    requires
        b.wf(),
        b.w() == 1,
        b.h() == 1,
    ensures
        b.sp_neighbors(0, 0) == 0,
        !b.sp_next_at(0, 0),
        forall|x: int, y: int| b.in_bounds(x, y) ==> !#[trigger] b.sp_next_at(x, y),
{
}

} // verus!
