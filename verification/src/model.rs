//! The mathematical model of the engine: a grid view (dimensions plus the
//! row-major sequence of cell states), toroidal neighbour counting, and the
//! Game of Life transition rule.

use vstd::arithmetic::div_mod::lemma_fundamental_div_mod;
use vstd::arithmetic::div_mod::lemma_fundamental_div_mod_converse;
use vstd::prelude::*;

verus! {

/// A grid state: dimensions and one row-major sequence of cells
/// (`true` = live).
#[verifier::ext_equal]
pub ghost struct GridView {
    pub width: nat,
    pub height: nat,
    pub cells: Seq<bool>,
}

impl GridView {
    /// Positive dimensions and a buffer of exactly `width * height` bits.
    pub open spec fn wf(self) -> bool {
        self.width > 0 && self.height > 0 && self.cells.len() == self.width * self.height
    }

    pub open spec fn in_bounds(self, row: int, col: int) -> bool {
        0 <= row < self.height && 0 <= col < self.width
    }

    /// The linear index of (row, col): row-major order.
    pub open spec fn idx(self, row: int, col: int) -> int {
        row * self.width + col
    }

    /// The state of the cell at (row, col).
    pub open spec fn at(self, row: int, col: int) -> bool {
        self.cells[self.idx(row, col)]
    }
}

/// One step up or left on the torus.
pub open spec fn wrap_dec(x: int, m: int) -> int {
    if x == 0 {
        m - 1
    } else {
        x - 1
    }
}

/// One step down or right on the torus.
pub open spec fn wrap_inc(x: int, m: int) -> int {
    if x == m - 1 {
        0
    } else {
        x + 1
    }
}

pub open spec fn b2i(b: bool) -> int {
    if b {
        1
    } else {
        0
    }
}

/// How many of the eight toroidal neighbours of (row, col) are live.
pub open spec fn live_neighbors(v: GridView, row: int, col: int) -> int {
    let n = wrap_dec(row, v.height as int);
    let s = wrap_inc(row, v.height as int);
    let w = wrap_dec(col, v.width as int);
    let e = wrap_inc(col, v.width as int);
    b2i(v.at(n, w)) + b2i(v.at(n, col)) + b2i(v.at(n, e)) + b2i(v.at(row, w)) + b2i(v.at(row, e))
        + b2i(v.at(s, w)) + b2i(v.at(s, col)) + b2i(v.at(s, e))
}

/// Conway's rule for one cell: a live cell survives with two or three live
/// neighbours, a dead cell comes alive with exactly three.
pub open spec fn next_state(alive: bool, n: int) -> bool {
    if alive {
        2 <= n <= 3
    } else {
        n == 3
    }
}

/// The next generation of the cell at (row, col).
pub open spec fn step_cell(v: GridView, row: int, col: int) -> bool {
    next_state(v.at(row, col), live_neighbors(v, row, col))
}

/// One synchronous generation over the whole grid: every cell is judged
/// against the same input state.
pub open spec fn life_step(v: GridView) -> Seq<bool> {
    Seq::new(v.width * v.height, |j: int| step_cell(v, j / v.width as int, j % v.width as int))
}

/// The grid after one generation.
pub open spec fn step_view(v: GridView) -> GridView {
    GridView { width: v.width, height: v.height, cells: life_step(v) }
}

/// True when one of the first `upto` coordinate pairs maps to linear index
/// `j` on a grid of the given width.
pub open spec fn hits_index(pts: Seq<(u32, u32)>, width: int, upto: int, j: int) -> bool {
    exists|k: int|
        0 <= k < upto && j == (#[trigger] pts[k]).0 as int * width + pts[k].1 as int
}

/// The cells after setting the first `upto` coordinate pairs live, in order.
pub open spec fn stamp_seq(cells: Seq<bool>, pts: Seq<(u32, u32)>, width: int, upto: int) -> Seq<
    bool,
>
    decreases upto,
{
    if upto <= 0 {
        cells
    } else {
        stamp_seq(cells, pts, width, upto - 1).update(
            pts[upto - 1].0 as int * width + pts[upto - 1].1 as int,
            true,
        )
    }
}

/// Setting a list of cells live leaves exactly the listed indices set and
/// every other cell as it was.
pub proof fn lemma_stamp_seq_spec(cells: Seq<bool>, pts: Seq<(u32, u32)>, width: int, upto: int)
    requires
        0 <= upto <= pts.len(),
        forall|k: int|
            0 <= k < upto ==> 0 <= ((#[trigger] pts[k]).0 as int * width + pts[k].1 as int)
                < cells.len(),
    ensures
        stamp_seq(cells, pts, width, upto).len() == cells.len(),
        forall|j: int|
            0 <= j < cells.len() ==> stamp_seq(cells, pts, width, upto)[j] == (cells[j]
                || hits_index(pts, width, upto, j)),
    decreases upto,
{
    if upto > 0 {
        lemma_stamp_seq_spec(cells, pts, width, upto - 1);
        let prev = stamp_seq(cells, pts, width, upto - 1);
        let idx = pts[upto - 1].0 as int * width + pts[upto - 1].1 as int;
        assert(stamp_seq(cells, pts, width, upto) == prev.update(idx, true));
        assert forall|j: int| 0 <= j < cells.len() implies stamp_seq(cells, pts, width, upto)[j]
            == (cells[j] || hits_index(pts, width, upto, j)) by {
            if j == idx {
                assert(0 <= upto - 1 < upto && j == (pts[upto - 1]).0 as int * width + (pts[upto
                    - 1]).1 as int);
                assert(hits_index(pts, width, upto, j));
            } else {
                assert(stamp_seq(cells, pts, width, upto)[j] == prev[j]);
                if hits_index(pts, width, upto - 1, j) {
                    assert(hits_index(pts, width, upto, j));
                }
                if hits_index(pts, width, upto, j) {
                    assert(hits_index(pts, width, upto - 1, j));
                }
            }
        }
    }
}

/// The glider shape fits around (row, col) without touching the edges: the
/// whole five-cell stamp lands in bounds, so no wrap-around is needed.
pub open spec fn glider_fits(v: GridView, row: int, col: int) -> bool {
    0 < row && row + 1 < v.height && 0 < col && col + 1 < v.width
}

/// The linear indices of the five glider cells anchored at (row, col).
pub open spec fn is_glider_index(v: GridView, row: int, col: int, j: int) -> bool {
    ||| j == v.idx(row - 1, col)
    ||| j == v.idx(row, col + 1)
    ||| j == v.idx(row + 1, col - 1)
    ||| j == v.idx(row + 1, col)
    ||| j == v.idx(row + 1, col + 1)
}

/// The pulsar shape fits around (row, col) without touching the edges: every
/// cell of the stamp lies within six rows and columns of the centre.
pub open spec fn pulsar_fits(v: GridView, row: int, col: int) -> bool {
    6 < row && row + 6 < v.height && 6 < col && col + 6 < v.width
}

/// The linear indices of the four reflections of offset (r, c) around
/// (row, col): the fourfold symmetry of the pulsar.
pub open spec fn is_reflection_index(
    v: GridView,
    row: int,
    col: int,
    r: int,
    c: int,
    j: int,
) -> bool {
    ||| j == v.idx(row + r, col + c)
    ||| j == v.idx(row + r, col - c)
    ||| j == v.idx(row - r, col + c)
    ||| j == v.idx(row - r, col - c)
}

/// The linear indices of the 48 pulsar cells around (row, col): the four
/// reflections of each of the twelve quarter-template offsets.
pub open spec fn is_pulsar_index(v: GridView, row: int, col: int, j: int) -> bool {
    ||| is_reflection_index(v, row, col, 6, 4, j)
    ||| is_reflection_index(v, row, col, 6, 3, j)
    ||| is_reflection_index(v, row, col, 6, 2, j)
    ||| is_reflection_index(v, row, col, 2, 1, j)
    ||| is_reflection_index(v, row, col, 3, 1, j)
    ||| is_reflection_index(v, row, col, 4, 1, j)
    ||| is_reflection_index(v, row, col, 1, 2, j)
    ||| is_reflection_index(v, row, col, 1, 3, j)
    ||| is_reflection_index(v, row, col, 1, 4, j)
    ||| is_reflection_index(v, row, col, 2, 6, j)
    ||| is_reflection_index(v, row, col, 3, 6, j)
    ||| is_reflection_index(v, row, col, 4, 6, j)
}

/// The row-major index of an in-bounds cell lies below `height * width`.
pub proof fn lemma_index_bound(row: int, col: int, w: int, h: int)
    requires
        0 <= row < h,
        0 <= col < w,
    ensures
        0 <= row * w + col < h * w,
        row * w + col < w * h,
{
    assert(0 <= row * w + col) by (nonlinear_arith)
        requires
            0 <= row,
            0 <= col,
            0 < w,
    ;
    assert(row * w + col < h * w && row * w + col < w * h) by (nonlinear_arith)
        requires
            0 <= row < h,
            0 <= col < w,
    ;
}

/// Decoding a linear index below `height * width` yields an in-bounds cell.
pub proof fn lemma_index_decode(w: int, h: int, j: int)
    requires
        1 <= w,
        1 <= h,
        0 <= j < h * w,
    ensures
        0 <= j / w < h,
        0 <= j % w < w,
        j == (j / w) * w + (j % w),
{
    lemma_fundamental_div_mod(j, w);
    assert(0 <= j % w < w) by (nonlinear_arith)
        requires
            1 <= w,
            0 <= j,
    ;
    assert(j / w >= 0) by (nonlinear_arith)
        requires
            1 <= w,
            0 <= j,
    ;
    assert(j / w < h) by (nonlinear_arith)
        requires
            1 <= w,
            0 <= j < h * w,
            j == w * (j / w) + (j % w),
            0 <= j % w < w,
    ;
}

/// `life_step` at the index of an in-bounds cell is that cell's next state.
pub proof fn lemma_life_step_entry(v: GridView, row: int, col: int)
    requires
        v.wf(),
        v.in_bounds(row, col),
    ensures
        life_step(v)[v.idx(row, col)] == step_cell(v, row, col),
{
    lemma_index_bound(row, col, v.width as int, v.height as int);
    lemma_fundamental_div_mod_converse(v.idx(row, col), v.width as int, row, col);
}

/// One step keeps the dimensions and the buffer size.
pub proof fn lemma_step_wf(v: GridView)
    requires
        v.wf(),
    ensures
        step_view(v).wf(),
        step_view(v).width == v.width,
        step_view(v).height == v.height,
        step_view(v).cells.len() == v.width * v.height,
{
}

} // verus!
