//! Laws of the engine, stated over the grid model and proved once and for
//! all: determinism, the wrap-around neighbourhood, size preservation, and
//! the classic patterns — the still block, the period-two blinker, and the
//! glider's four-step translation.

use crate::model::b2i;
use crate::model::lemma_index_decode;
use crate::model::lemma_life_step_entry;
use crate::model::lemma_step_wf;
use crate::model::life_step;
use crate::model::live_neighbors;
use crate::model::step_view;
use crate::model::wrap_dec;
use crate::model::wrap_inc;
use crate::model::GridView;
use vstd::prelude::*;

verus! {

/// The grid's live cells are exactly those the predicate picks out.
pub open spec fn only_cells(v: GridView, p: spec_fn(int, int) -> bool) -> bool {
    forall|a: int, b: int| v.in_bounds(a, b) ==> (#[trigger] v.at(a, b) <==> p(a, b))
}

/// On a grid whose live cells are exactly `p`, the neighbour count of any
/// cell is the count of `p` over its eight wrapped coordinates.
proof fn lemma_neighbors_from_pattern(v: GridView, p: spec_fn(int, int) -> bool, a: int, b: int)
    requires
        v.wf(),
        only_cells(v, p),
        v.in_bounds(a, b),
    ensures
        v.at(a, b) == p(a, b),
        live_neighbors(v, a, b) == ({
            let n = wrap_dec(a, v.height as int);
            let s = wrap_inc(a, v.height as int);
            let w = wrap_dec(b, v.width as int);
            let e = wrap_inc(b, v.width as int);
            b2i(p(n, w)) + b2i(p(n, b)) + b2i(p(n, e)) + b2i(p(a, w)) + b2i(p(a, e)) + b2i(
                p(s, w),
            ) + b2i(p(s, b)) + b2i(p(s, e))
        }),
{
    let n = wrap_dec(a, v.height as int);
    let s = wrap_inc(a, v.height as int);
    let w = wrap_dec(b, v.width as int);
    let e = wrap_inc(b, v.width as int);
    assert(v.at(a, b) <==> p(a, b));
    assert(v.at(n, w) <==> p(n, w));
    assert(v.at(n, b) <==> p(n, b));
    assert(v.at(n, e) <==> p(n, e));
    assert(v.at(a, w) <==> p(a, w));
    assert(v.at(a, e) <==> p(a, e));
    assert(v.at(s, w) <==> p(s, w));
    assert(v.at(s, b) <==> p(s, b));
    assert(v.at(s, e) <==> p(s, e));
}

/// A 2-by-2 block of live cells anchored at (r, c).
pub open spec fn block_cell(r: int, c: int, a: int, b: int) -> bool {
    r <= a <= r + 1 && c <= b <= c + 1
}

/// Still life: a 2-by-2 block away from the edges is a fixed point of the
/// step, so it remains unchanged after any number of steps.
pub proof fn lemma_block_still_life(v: GridView, r: int, c: int)
    requires
        v.wf(),
        1 <= r,
        r + 2 < v.height,
        1 <= c,
        c + 2 < v.width,
        only_cells(v, (|a: int, b: int| block_cell(r, c, a, b))),
    ensures
        life_step(v) == v.cells,
        step_view(v) == v,
{
    let w = v.width as int;
    let h = v.height as int;
    assert forall|j: int| 0 <= j < v.cells.len() implies life_step(v)[j] == v.cells[j] by {
        lemma_index_decode(w, h, j);
        let a = j / w;
        let b = j % w;
        lemma_life_step_entry(v, a, b);
        lemma_neighbors_from_pattern(v, (|a2: int, b2: int| block_cell(r, c, a2, b2)), a, b);
    }
    assert(life_step(v) =~= v.cells);
    assert(step_view(v) =~= v);
}

/// A horizontal blinker: three live cells in row `r`, centred on column `c`.
pub open spec fn horiz_blinker_cell(r: int, c: int, a: int, b: int) -> bool {
    a == r && c - 1 <= b <= c + 1
}

/// A vertical blinker: three live cells in column `c`, centred on row `r`.
pub open spec fn vert_blinker_cell(r: int, c: int, a: int, b: int) -> bool {
    r - 1 <= a <= r + 1 && b == c
}

/// One step turns a horizontal blinker away from the edges into the vertical
/// blinker around the same centre.
pub proof fn lemma_blinker_half_period(v: GridView, r: int, c: int)
    requires
        v.wf(),
        2 <= r,
        r + 2 < v.height,
        2 <= c,
        c + 2 < v.width,
        only_cells(v, (|a: int, b: int| horiz_blinker_cell(r, c, a, b))),
    ensures
        only_cells(step_view(v), (|a: int, b: int| vert_blinker_cell(r, c, a, b))),
{
    assert forall|a: int, b: int| step_view(v).in_bounds(a, b) implies (#[trigger] step_view(
        v,
    ).at(a, b) <==> vert_blinker_cell(r, c, a, b)) by {
        lemma_life_step_entry(v, a, b);
        lemma_neighbors_from_pattern(
            v,
            (|a2: int, b2: int| horiz_blinker_cell(r, c, a2, b2)),
            a,
            b,
        );
    }
}

/// One step turns a vertical blinker away from the edges back into the
/// horizontal blinker around the same centre.
pub proof fn lemma_blinker_other_half(v: GridView, r: int, c: int)
    requires
        v.wf(),
        2 <= r,
        r + 2 < v.height,
        2 <= c,
        c + 2 < v.width,
        only_cells(v, (|a: int, b: int| vert_blinker_cell(r, c, a, b))),
    ensures
        only_cells(step_view(v), (|a: int, b: int| horiz_blinker_cell(r, c, a, b))),
{
    assert forall|a: int, b: int| step_view(v).in_bounds(a, b) implies (#[trigger] step_view(
        v,
    ).at(a, b) <==> horiz_blinker_cell(r, c, a, b)) by {
        lemma_life_step_entry(v, a, b);
        lemma_neighbors_from_pattern(
            v,
            (|a2: int, b2: int| vert_blinker_cell(r, c, a2, b2)),
            a,
            b,
        );
    }
}

/// Oscillator of period two: a horizontal blinker becomes vertical after one
/// step and returns to the original horizontal shape after the second.
pub proof fn lemma_blinker_period_two(v: GridView, r: int, c: int)
    requires
        v.wf(),
        2 <= r,
        r + 2 < v.height,
        2 <= c,
        c + 2 < v.width,
        only_cells(v, (|a: int, b: int| horiz_blinker_cell(r, c, a, b))),
    ensures
        only_cells(step_view(v), (|a: int, b: int| vert_blinker_cell(r, c, a, b))),
        only_cells(step_view(step_view(v)), (|a: int, b: int| horiz_blinker_cell(r, c, a, b))),
{
    lemma_blinker_half_period(v, r, c);
    lemma_step_wf(v);
    lemma_blinker_other_half(step_view(v), r, c);
}

/// The five cells of the glider anchored at (r, c).
pub open spec fn glider_cell(r: int, c: int, a: int, b: int) -> bool {
    ||| (a == r - 1 && b == c)
    ||| (a == r && b == c + 1)
    ||| (a == r + 1 && b == c - 1)
    ||| (a == r + 1 && b == c)
    ||| (a == r + 1 && b == c + 1)
}

/// The glider one step after `glider_cell(r, c)`.
pub open spec fn glider_phase1_cell(r: int, c: int, a: int, b: int) -> bool {
    ||| (a == r && b == c - 1)
    ||| (a == r && b == c + 1)
    ||| (a == r + 1 && b == c)
    ||| (a == r + 1 && b == c + 1)
    ||| (a == r + 2 && b == c)
}

/// The glider two steps after `glider_cell(r, c)`.
pub open spec fn glider_phase2_cell(r: int, c: int, a: int, b: int) -> bool {
    ||| (a == r && b == c + 1)
    ||| (a == r + 1 && b == c - 1)
    ||| (a == r + 1 && b == c + 1)
    ||| (a == r + 2 && b == c)
    ||| (a == r + 2 && b == c + 1)
}

/// The glider three steps after `glider_cell(r, c)`.
pub open spec fn glider_phase3_cell(r: int, c: int, a: int, b: int) -> bool {
    ||| (a == r && b == c)
    ||| (a == r + 1 && b == c + 1)
    ||| (a == r + 1 && b == c + 2)
    ||| (a == r + 2 && b == c)
    ||| (a == r + 2 && b == c + 1)
}

/// Room for the glider's four-step journey away from every edge.
pub open spec fn glider_room(v: GridView, r: int, c: int) -> bool {
    2 <= r && r + 4 <= v.height && 2 <= c && c + 4 <= v.width
}

proof fn lemma_glider_phase1(v: GridView, r: int, c: int)
    requires
        v.wf(),
        glider_room(v, r, c),
        only_cells(v, (|a: int, b: int| glider_cell(r, c, a, b))),
    ensures
        only_cells(step_view(v), (|a: int, b: int| glider_phase1_cell(r, c, a, b))),
{
    assert forall|a: int, b: int| step_view(v).in_bounds(a, b) implies (#[trigger] step_view(
        v,
    ).at(a, b) <==> glider_phase1_cell(r, c, a, b)) by {
        lemma_life_step_entry(v, a, b);
        lemma_neighbors_from_pattern(v, (|a2: int, b2: int| glider_cell(r, c, a2, b2)), a, b);
    }
}

proof fn lemma_glider_phase2(v: GridView, r: int, c: int)
    requires
        v.wf(),
        glider_room(v, r, c),
        only_cells(v, (|a: int, b: int| glider_phase1_cell(r, c, a, b))),
    ensures
        only_cells(step_view(v), (|a: int, b: int| glider_phase2_cell(r, c, a, b))),
{
    assert forall|a: int, b: int| step_view(v).in_bounds(a, b) implies (#[trigger] step_view(
        v,
    ).at(a, b) <==> glider_phase2_cell(r, c, a, b)) by {
        lemma_life_step_entry(v, a, b);
        lemma_neighbors_from_pattern(
            v,
            (|a2: int, b2: int| glider_phase1_cell(r, c, a2, b2)),
            a,
            b,
        );
    }
}

proof fn lemma_glider_phase3(v: GridView, r: int, c: int)
    requires
        v.wf(),
        glider_room(v, r, c),
        only_cells(v, (|a: int, b: int| glider_phase2_cell(r, c, a, b))),
    ensures
        only_cells(step_view(v), (|a: int, b: int| glider_phase3_cell(r, c, a, b))),
{
    assert forall|a: int, b: int| step_view(v).in_bounds(a, b) implies (#[trigger] step_view(
        v,
    ).at(a, b) <==> glider_phase3_cell(r, c, a, b)) by {
        lemma_life_step_entry(v, a, b);
        lemma_neighbors_from_pattern(
            v,
            (|a2: int, b2: int| glider_phase2_cell(r, c, a2, b2)),
            a,
            b,
        );
    }
}

proof fn lemma_glider_phase4(v: GridView, r: int, c: int)
    requires
        v.wf(),
        glider_room(v, r, c),
        only_cells(v, (|a: int, b: int| glider_phase3_cell(r, c, a, b))),
    ensures
        only_cells(step_view(v), (|a: int, b: int| glider_cell(r + 1, c + 1, a, b))),
{
    assert forall|a: int, b: int| step_view(v).in_bounds(a, b) implies (#[trigger] step_view(
        v,
    ).at(a, b) <==> glider_cell(r + 1, c + 1, a, b)) by {
        lemma_life_step_entry(v, a, b);
        lemma_neighbors_from_pattern(
            v,
            (|a2: int, b2: int| glider_phase3_cell(r, c, a2, b2)),
            a,
            b,
        );
    }
}

/// Glider translation: on an otherwise empty grid, away from the edges, four
/// steps return the five-cell glider shape translated by one row and one
/// column.
pub proof fn lemma_glider_translates(v: GridView, r: int, c: int)
    requires
        v.wf(),
        glider_room(v, r, c),
        only_cells(v, (|a: int, b: int| glider_cell(r, c, a, b))),
    ensures
        only_cells(
            step_view(step_view(step_view(step_view(v)))),
            (|a: int, b: int| glider_cell(r + 1, c + 1, a, b)),
        ),
{
    lemma_glider_phase1(v, r, c);
    lemma_step_wf(v);
    lemma_glider_phase2(step_view(v), r, c);
    lemma_step_wf(step_view(v));
    lemma_glider_phase3(step_view(step_view(v)), r, c);
    lemma_step_wf(step_view(step_view(v)));
    lemma_glider_phase4(step_view(step_view(step_view(v))), r, c);
}

/// Determinism: one generation is a function of the grid state alone, so two
/// grids holding the same cells step to the same cells.
pub proof fn lemma_step_deterministic(v1: GridView, v2: GridView)
    requires
        v1.width == v2.width,
        v1.height == v2.height,
        v1.cells == v2.cells,
    ensures
        life_step(v1) == life_step(v2),
{
    assert(v1 =~= v2);
}

/// Wrap-around: a live cell in the bottom-right corner is counted as a
/// diagonal neighbour of the top-left corner.
pub proof fn lemma_corner_sees_opposite(v: GridView)
    requires
        v.wf(),
        v.width >= 2,
        v.height >= 2,
        v.at(v.height as int - 1, v.width as int - 1),
    ensures
        live_neighbors(v, 0, 0) >= 1,
{
}

/// Wrap-around, the other way round: a live top-left corner is counted as a
/// diagonal neighbour of the bottom-right corner.
pub proof fn lemma_opposite_sees_corner(v: GridView)
    requires
        v.wf(),
        v.width >= 2,
        v.height >= 2,
        v.at(0, 0),
    ensures
        live_neighbors(v, v.height as int - 1, v.width as int - 1) >= 1,
{
}

/// With the bottom-right corner as the only live cell, the top-left corner
/// counts exactly one live neighbour: the wrapped diagonal, once.
pub proof fn lemma_wrapped_diagonal_counted_once(v: GridView)
    requires
        v.wf(),
        v.width >= 3,
        v.height >= 3,
        only_cells(
            v,
            (|a: int, b: int| a == v.height as int - 1 && b == v.width as int - 1),
        ),
    ensures
        live_neighbors(v, 0, 0) == 1,
{
    let h = v.height as int;
    let w = v.width as int;
    assert(v.at(h - 1, w - 1));
    assert(!v.at(h - 1, 0));
    assert(!v.at(h - 1, 1));
    assert(!v.at(0, w - 1));
    assert(!v.at(0, 1));
    assert(!v.at(1, w - 1));
    assert(!v.at(1, 0));
    assert(!v.at(1, 1));
}

/// Size preservation: a step keeps the dimensions and a buffer of exactly
/// `width * height` bits.
pub proof fn lemma_step_preserves_size(v: GridView)
    requires
        v.wf(),
    ensures
        step_view(v).wf(),
        step_view(v).cells.len() == v.width * v.height,
{
}

} // verus!
