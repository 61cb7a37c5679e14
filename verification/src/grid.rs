//! The grid engine: a double-buffered, bit-packed universe on a torus.
//!
//! `prevs` is the authoritative state read by a step; `nexts` is the buffer a
//! step writes. Between public operations the two hold the same bits, so a
//! stamp is visible both to the following step and to an immediate read-back.

use crate::bits::bits_of;
use crate::bits::fbs_clear;
use crate::bits::fbs_contains;
use crate::bits::fbs_set;
use crate::bits::fbs_toggle;
use crate::bits::fbs_union_with;
use crate::bits::fbs_with_capacity;
use crate::model::b2i;
use crate::model::glider_fits;
use crate::model::hits_index;
use crate::model::is_glider_index;
use crate::model::is_pulsar_index;
use crate::model::is_reflection_index;
use crate::model::pulsar_fits;
use crate::model::lemma_index_bound;
use crate::model::lemma_stamp_seq_spec;
use crate::model::stamp_seq;
use crate::model::life_step;
use crate::model::live_neighbors;
use crate::model::next_state;
use crate::model::step_cell;
use crate::model::wrap_dec;
use crate::model::wrap_inc;
use crate::model::GridView;
use vstd::arithmetic::div_mod::lemma_fundamental_div_mod_converse;
use fixedbitset::FixedBitSet;
use vstd::prelude::*;

verus! {

/// Every listed (row, col) pair in bounds maps to an index inside the buffer.
proof fn lemma_index_bound_list(pts: Seq<(u32, u32)>, g: GridView)
    requires
        g.wf(),
        forall|k: int|
            0 <= k < pts.len() ==> ((#[trigger] pts[k]).0 as int) < g.height && (pts[k].1 as int)
                < g.width,
    ensures
        forall|k: int|
            0 <= k < pts.len() ==> 0 <= ((#[trigger] pts[k]).0 as int * g.width as int + pts[
                k].1 as int) < g.cells.len(),
{
    assert forall|k: int|
        0 <= k < pts.len() implies 0 <= ((#[trigger] pts[k]).0 as int * g.width as int + pts[
        k].1 as int) < g.cells.len() by {
        lemma_index_bound(pts[k].0 as int, pts[k].1 as int, g.width as int, g.height as int);
    }
}

/// Why a universe could not be built.
#[derive(Clone, Copy, Debug, PartialEq, Eq, Structural)]
pub enum GridError {
    /// A dimension was zero: wrap-around arithmetic needs `width > 0` and
    /// `height > 0`.
    InvalidDimensions,
}

/// A toroidal Game of Life grid: immutable dimensions and two equal-size bit
/// buffers, one bit per cell, row-major.
pub struct Universe {
    width: u32,
    height: u32,
    prevs: FixedBitSet,
    nexts: FixedBitSet,
}

impl View for Universe {
    type V = GridView;

    closed spec fn view(&self) -> GridView {
        GridView {
            width: self.width as nat,
            height: self.height as nat,
            cells: bits_of(self.prevs),
        }
    }
}

impl Universe {
    /// The internal invariant: positive dimensions whose product fits an
    /// index, and two buffers of exactly `width * height` bits that agree
    /// between operations.
    pub closed spec fn wf(self) -> bool {
        &&& self.width > 0
        &&& self.height > 0
        &&& self.width as int * self.height as int <= usize::MAX as int
        &&& bits_of(self.prevs).len() == self.width as int * self.height as int
        &&& bits_of(self.nexts) == bits_of(self.prevs)
    }

    /// What a caller may assume of a well-formed universe's view; in
    /// particular, the bit buffer holds exactly `width * height` cells.
    pub proof fn lemma_wf_view(self)
        requires
            self.wf(),
        ensures
            self@.wf(),
            self@.width > 0,
            self@.height > 0,
            self@.cells.len() == self@.width * self@.height,
    {
    }

    /// The linear index of an in-bounds cell, `row * width + col`.
    fn get_index(&self, row: u32, col: u32) -> (r: usize)
        requires
            row < self.height,
            col < self.width,
            self.width as int * self.height as int <= usize::MAX as int,
        ensures
            r == row as int * self.width as int + col as int,
            r < self.width as int * self.height as int,
    {
        proof {
            lemma_index_bound(row as int, col as int, self.width as int, self.height as int);
        }
        (row as usize) * (self.width as usize) + (col as usize)
    }

    /// How many of the eight toroidal neighbours of (row, col) are live in
    /// `prevs`, the read-only input of the running step. It never reads
    /// `nexts`, so updates already written by the same step cannot leak into
    /// the count.
    #[verifier::rlimit(100)]
    fn live_neighbor_count(&self, row: u32, col: u32) -> (r: u8)
        requires
            self.width > 0,
            self.height > 0,
            self.width as int * self.height as int <= usize::MAX as int,
            bits_of(self.prevs).len() == self.width as int * self.height as int,
            row < self.height,
            col < self.width,
        ensures
            r as int == live_neighbors(self@, row as int, col as int),
            r <= 8,
    {
        let north = if row == 0 {
            self.height - 1
        } else {
            row - 1
        };
        let south = if row == self.height - 1 {
            0
        } else {
            row + 1
        };
        let west = if col == 0 {
            self.width - 1
        } else {
            col - 1
        };
        let east = if col == self.width - 1 {
            0
        } else {
            col + 1
        };
        proof {
            assert(north as int == wrap_dec(row as int, self@.height as int));
            assert(south as int == wrap_inc(row as int, self@.height as int));
            assert(west as int == wrap_dec(col as int, self@.width as int));
            assert(east as int == wrap_inc(col as int, self@.width as int));
        }
        let b1 = fbs_contains(&self.prevs, self.get_index(north, west));
        let b2 = fbs_contains(&self.prevs, self.get_index(north, col));
        let b3 = fbs_contains(&self.prevs, self.get_index(north, east));
        let b4 = fbs_contains(&self.prevs, self.get_index(row, west));
        let b5 = fbs_contains(&self.prevs, self.get_index(row, east));
        let b6 = fbs_contains(&self.prevs, self.get_index(south, west));
        let b7 = fbs_contains(&self.prevs, self.get_index(south, col));
        let b8 = fbs_contains(&self.prevs, self.get_index(south, east));
        proof {
            assert(b1 == self@.at(north as int, west as int));
            assert(b2 == self@.at(north as int, col as int));
            assert(b3 == self@.at(north as int, east as int));
            assert(b4 == self@.at(row as int, west as int));
            assert(b5 == self@.at(row as int, east as int));
            assert(b6 == self@.at(south as int, west as int));
            assert(b7 == self@.at(south as int, col as int));
            assert(b8 == self@.at(south as int, east as int));
            assert(live_neighbors(self@, row as int, col as int) == b2i(b1) + b2i(b2) + b2i(b3)
                + b2i(b4) + b2i(b5) + b2i(b6) + b2i(b7) + b2i(b8));
        }
        let c1: u8 = if b1 {
            1
        } else {
            0
        };
        let c2: u8 = if b2 {
            1
        } else {
            0
        };
        let c3: u8 = if b3 {
            1
        } else {
            0
        };
        let c4: u8 = if b4 {
            1
        } else {
            0
        };
        let c5: u8 = if b5 {
            1
        } else {
            0
        };
        let c6: u8 = if b6 {
            1
        } else {
            0
        };
        let c7: u8 = if b7 {
            1
        } else {
            0
        };
        let c8: u8 = if b8 {
            1
        } else {
            0
        };
        c1 + c2 + c3 + c4 + c5 + c6 + c7 + c8
    }

    /// Advances the grid one generation: judges every cell against the fixed
    /// rule over the pre-step state, then commits the result as the new
    /// baseline of both buffers.
    pub fn tick(&mut self)
        requires
            old(self).wf(),
        ensures
            final(self).wf(),
            final(self)@.width == old(self)@.width,
            final(self)@.height == old(self)@.height,
            final(self)@.cells == life_step(old(self)@),
    {
        let ghost g = self@;
        let mut row: u32 = 0;
        while row < self.height
            invariant
                self.width == old(self).width,
                self.height == old(self).height,
                self.prevs == old(self).prevs,
                old(self).wf(),
                g == self@,
                row <= self.height,
                bits_of(self.nexts).len() == g.width * g.height,
                forall|j: int|
                    0 <= j < row * g.width ==> bits_of(self.nexts)[j] == step_cell(
                        g,
                        j / g.width as int,
                        j % g.width as int,
                    ),
                forall|j: int|
                    row * g.width <= j < g.width * g.height ==> bits_of(self.nexts)[j]
                        == g.cells[j],
            decreases self.height - row,
        {
            let mut col: u32 = 0;
            while col < self.width
                invariant
                    self.width == old(self).width,
                    self.height == old(self).height,
                    self.prevs == old(self).prevs,
                    old(self).wf(),
                    g == self@,
                    row < self.height,
                    col <= self.width,
                    bits_of(self.nexts).len() == g.width * g.height,
                    forall|j: int|
                        0 <= j < row * g.width + col ==> bits_of(self.nexts)[j] == step_cell(
                            g,
                            j / g.width as int,
                            j % g.width as int,
                        ),
                    forall|j: int|
                        row * g.width + col <= j < g.width * g.height ==> bits_of(self.nexts)[j]
                            == g.cells[j],
                decreases self.width - col,
            {
                let idx = self.get_index(row, col);
                let cell = fbs_contains(&self.prevs, idx);
                let neighbors = self.live_neighbor_count(row, col);
                proof {
                    lemma_fundamental_div_mod_converse(
                        idx as int,
                        g.width as int,
                        row as int,
                        col as int,
                    );
                    assert(step_cell(g, row as int, col as int) == next_state(
                        cell,
                        neighbors as int,
                    ));
                }
                if cell && (neighbors < 2 || neighbors > 3) {
                    fbs_set(&mut self.nexts, idx, false);
                } else if !cell && neighbors == 3 {
                    fbs_set(&mut self.nexts, idx, true);
                }
                col += 1;
            }
            proof {
                assert(row as int * g.width + g.width == (row + 1) as int * g.width)
                    by (nonlinear_arith);
            }
            row += 1;
        }
        proof {
            assert(row as int * g.width == g.width * g.height) by (nonlinear_arith)
                requires
                    row as int == g.height as int,
            ;
        }
        fbs_clear(&mut self.prevs);
        fbs_union_with(&mut self.prevs, &self.nexts);
        proof {
            assert(bits_of(self.prevs) =~= bits_of(self.nexts));
            assert(bits_of(self.prevs) =~= life_step(g));
        }
    }

    /// Zeroed construction: every cell dead. Rejects a zero dimension.
    pub fn new_empty(width: u32, height: u32) -> (r: Result<Universe, GridError>)
        requires
            width as int * height as int <= usize::MAX as int,
        ensures
            r is Ok <==> (width > 0 && height > 0),
            match r {
                Ok(u) => {
                    &&& u.wf()
                    &&& u@.width == width as nat
                    &&& u@.height == height as nat
                    &&& u@.cells == Seq::new((width * height) as nat, |j: int| false)
                },
                Err(e) => e == GridError::InvalidDimensions && (width == 0 || height == 0),
            },
    {
        if width == 0 || height == 0 {
            return Err(GridError::InvalidDimensions);
        }
        let size: usize = (width as usize) * (height as usize);
        let prevs = fbs_with_capacity(size);
        let nexts = fbs_with_capacity(size);
        let u = Universe { width, height, prevs, nexts };
        proof {
            assert(bits_of(u.prevs) =~= Seq::new((width * height) as nat, |j: int| false));
            assert(bits_of(u.nexts) =~= bits_of(u.prevs));
        }
        Ok(u)
    }

    /// Seeded construction: one liveness decision per cell, row-major. The
    /// host draws the decisions from its random source (typically live with
    /// probability about one third) and injects them here, which keeps the
    /// engine itself deterministic. Rejects a zero dimension.
    pub fn new(width: u32, height: u32, seed: Vec<bool>) -> (r: Result<Universe, GridError>)
        requires
            width as int * height as int <= usize::MAX as int,
            seed@.len() == width as int * height as int,
        ensures
            r is Ok <==> (width > 0 && height > 0),
            match r {
                Ok(u) => {
                    &&& u.wf()
                    &&& u@.width == width as nat
                    &&& u@.height == height as nat
                    &&& u@.cells == seed@
                },
                Err(e) => e == GridError::InvalidDimensions && (width == 0 || height == 0),
            },
    {
        if width == 0 || height == 0 {
            return Err(GridError::InvalidDimensions);
        }
        let size: usize = (width as usize) * (height as usize);
        let mut prevs = fbs_with_capacity(size);
        let mut idx: usize = 0;
        while idx < size
            invariant
                idx <= size,
                seed@.len() == size,
                bits_of(prevs).len() == size,
                forall|j: int| 0 <= j < idx ==> bits_of(prevs)[j] == seed@[j],
            decreases size - idx,
        {
            fbs_set(&mut prevs, idx, seed[idx]);
            idx += 1;
        }
        let mut nexts = fbs_with_capacity(size);
        fbs_union_with(&mut nexts, &prevs);
        let u = Universe { width, height, prevs, nexts };
        proof {
            assert(bits_of(u.prevs) =~= seed@);
            assert(bits_of(u.nexts) =~= bits_of(u.prevs));
        }
        Ok(u)
    }

    /// Sets the single cell at (row, col) live in both buffers, so the stamp
    /// is both the next step's input and immediately visible to a read-back.
    /// In-bounds coordinates are a precondition: the engine keeps its
    /// unchecked fast-path indexing, and the host validates before calling.
    pub fn set_cell(&mut self, row: u32, col: u32)
        requires
            old(self).wf(),
            (row as int) < old(self)@.height,
            (col as int) < old(self)@.width,
        ensures
            final(self).wf(),
            final(self)@.width == old(self)@.width,
            final(self)@.height == old(self)@.height,
            final(self)@.cells == old(self)@.cells.update(
                row as int * old(self)@.width as int + col as int,
                true,
            ),
    {
        let idx = self.get_index(row, col);
        fbs_set(&mut self.prevs, idx, true);
        fbs_set(&mut self.nexts, idx, true);
    }

    /// Flips the state of the single cell at (row, col) in both buffers.
    /// In-bounds coordinates are a precondition, as for `set_cell`.
    pub fn toggle_cell(&mut self, row: u32, col: u32)
        requires
            old(self).wf(),
            (row as int) < old(self)@.height,
            (col as int) < old(self)@.width,
        ensures
            final(self).wf(),
            final(self)@.width == old(self)@.width,
            final(self)@.height == old(self)@.height,
            final(self)@.cells == old(self)@.cells.update(
                row as int * old(self)@.width as int + col as int,
                !old(self)@.cells[row as int * old(self)@.width as int + col as int],
            ),
    {
        let idx = self.get_index(row, col);
        fbs_toggle(&mut self.prevs, idx);
        fbs_toggle(&mut self.nexts, idx);
    }

    /// Sets an explicit list of (row, col) pairs live in both buffers.
    /// Every listed pair must be in bounds, as for `set_cell`.
    pub fn set_cells(&mut self, cells: &[(u32, u32)])
        requires
            old(self).wf(),
            forall|k: int|
                0 <= k < cells@.len() ==> ((#[trigger] cells@[k]).0 as int) < old(self)@.height
                    && (cells@[k].1 as int) < old(self)@.width,
        ensures
            final(self).wf(),
            final(self)@.width == old(self)@.width,
            final(self)@.height == old(self)@.height,
            final(self)@.cells.len() == old(self)@.cells.len(),
            forall|j: int|
                0 <= j < final(self)@.cells.len() ==> final(self)@.cells[j] == (old(
                    self,
                )@.cells[j] || hits_index(
                    cells@,
                    old(self)@.width as int,
                    cells@.len() as int,
                    j,
                )),
    {
        let ghost g = self@;
        let mut k: usize = 0;
        while k < cells.len()
            invariant
                self.width == old(self).width,
                self.height == old(self).height,
                old(self).wf(),
                self.wf(),
                g == old(self)@,
                self@.width == g.width,
                self@.height == g.height,
                k <= cells@.len(),
                forall|k2: int|
                    0 <= k2 < cells@.len() ==> ((#[trigger] cells@[k2]).0 as int) < g.height && (
                    cells@[k2].1 as int) < g.width,
                self@.cells.len() == g.cells.len(),
                self@.cells == stamp_seq(g.cells, cells@, g.width as int, k as int),
            decreases cells@.len() - k,
        {
            let ghost kold: int = k as int;
            let (row, col) = cells[k];
            let idx = self.get_index(row, col);
            proof {
                assert(cells@[kold].0 == row && cells@[kold].1 == col);
                assert(idx as int == (cells@[kold]).0 as int * g.width as int + (cells@[
                    kold]).1 as int);
            }
            fbs_set(&mut self.prevs, idx, true);
            fbs_set(&mut self.nexts, idx, true);
            k += 1;
            proof {
                assert(k as int == kold + 1);
                assert(stamp_seq(g.cells, cells@, g.width as int, kold + 1) == stamp_seq(
                    g.cells,
                    cells@,
                    g.width as int,
                    kold,
                ).update(idx as int, true));
                assert(self@.cells == stamp_seq(g.cells, cells@, g.width as int, k as int));
            }
        }
        proof {
            lemma_index_bound_list(cells@, g);
            lemma_stamp_seq_spec(g.cells, cells@, g.width as int, cells@.len() as int);
        }
    }

    /// Stamps the five-cell glider anchored at (row, col) into both buffers.
    /// Unless the whole shape fits without wrap-around, the stamp is a
    /// silent no-op rather than partially applied.
    pub fn glider(&mut self, row: u32, col: u32)
        requires
            old(self).wf(),
        ensures
            final(self).wf(),
            final(self)@.width == old(self)@.width,
            final(self)@.height == old(self)@.height,
            final(self)@.cells.len() == old(self)@.cells.len(),
            glider_fits(old(self)@, row as int, col as int) ==> forall|j: int|
                0 <= j < final(self)@.cells.len() ==> final(self)@.cells[j] == (old(
                    self,
                )@.cells[j] || is_glider_index(old(self)@, row as int, col as int, j)),
            !glider_fits(old(self)@, row as int, col as int) ==> final(self)@.cells == old(
                self,
            )@.cells,
    {
        if row > 0 && (row as u64) + 1 < (self.height as u64) && col > 0 && (col as u64) + 1 < (
        self.width as u64) {
            let ghost g = self@;
            let i1 = self.get_index(row - 1, col);
            let i2 = self.get_index(row, col + 1);
            let i3 = self.get_index(row + 1, col - 1);
            let i4 = self.get_index(row + 1, col);
            let i5 = self.get_index(row + 1, col + 1);
            fbs_set(&mut self.prevs, i1, true);
            fbs_set(&mut self.nexts, i1, true);
            fbs_set(&mut self.prevs, i2, true);
            fbs_set(&mut self.nexts, i2, true);
            fbs_set(&mut self.prevs, i3, true);
            fbs_set(&mut self.nexts, i3, true);
            fbs_set(&mut self.prevs, i4, true);
            fbs_set(&mut self.nexts, i4, true);
            fbs_set(&mut self.prevs, i5, true);
            fbs_set(&mut self.nexts, i5, true);
            proof {
                assert forall|j: int| 0 <= j < self@.cells.len() implies self@.cells[j] == (
                g.cells[j] || is_glider_index(g, row as int, col as int, j)) by {
                    assert(self@.cells[j] == (g.cells[j] || j == i1 as int || j == i2 as int || j
                        == i3 as int || j == i4 as int || j == i5 as int));
                }
            }
        }
    }

    /// Sets the four reflections of offset (r, c) around (row, col) live in
    /// both buffers: one quarter-template entry of the pulsar.
    fn stamp_quad(&mut self, row: u32, col: u32, r: u32, c: u32)
        requires
            old(self).wf(),
            pulsar_fits(old(self)@, row as int, col as int),
            1 <= r <= 6,
            1 <= c <= 6,
        ensures
            final(self).wf(),
            final(self)@.width == old(self)@.width,
            final(self)@.height == old(self)@.height,
            final(self)@.cells.len() == old(self)@.cells.len(),
            forall|j: int|
                0 <= j < final(self)@.cells.len() ==> final(self)@.cells[j] == (old(
                    self,
                )@.cells[j] || is_reflection_index(
                    old(self)@,
                    row as int,
                    col as int,
                    r as int,
                    c as int,
                    j,
                )),
    {
        let i1 = self.get_index(row + r, col + c);
        let i2 = self.get_index(row + r, col - c);
        let i3 = self.get_index(row - r, col + c);
        let i4 = self.get_index(row - r, col - c);
        fbs_set(&mut self.prevs, i1, true);
        fbs_set(&mut self.nexts, i1, true);
        fbs_set(&mut self.prevs, i2, true);
        fbs_set(&mut self.nexts, i2, true);
        fbs_set(&mut self.prevs, i3, true);
        fbs_set(&mut self.nexts, i3, true);
        fbs_set(&mut self.prevs, i4, true);
        fbs_set(&mut self.nexts, i4, true);
        proof {
            assert forall|j: int| 0 <= j < self@.cells.len() implies self@.cells[j] == (old(
            self)@.cells[j] || is_reflection_index(
                old(self)@,
                row as int,
                col as int,
                r as int,
                c as int,
                j,
            )) by {
                assert(self@.cells[j] == (old(self)@.cells[j] || j == i1 as int || j == i2 as int
                    || j == i3 as int || j == i4 as int));
            }
        }
    }

    /// Stamps the 48-cell pulsar around (row, col) into both buffers: the
    /// four reflections of a twelve-point quarter template. Reflections of
    /// distinct template points never collide, and a cell is only ever set
    /// live, so no index is set more than logically once. Unless the whole
    /// shape fits without wrap-around, the stamp is a silent no-op rather
    /// than partially applied.
    #[verifier::rlimit(100)]
    pub fn pulsar(&mut self, row: u32, col: u32)
        requires
            old(self).wf(),
        ensures
            final(self).wf(),
            final(self)@.width == old(self)@.width,
            final(self)@.height == old(self)@.height,
            final(self)@.cells.len() == old(self)@.cells.len(),
            pulsar_fits(old(self)@, row as int, col as int) ==> forall|j: int|
                0 <= j < final(self)@.cells.len() ==> final(self)@.cells[j] == (old(
                    self,
                )@.cells[j] || is_pulsar_index(old(self)@, row as int, col as int, j)),
            !pulsar_fits(old(self)@, row as int, col as int) ==> final(self)@.cells == old(
                self,
            )@.cells,
    {
        if row > 6 && (row as u64) + 6 < (self.height as u64) && col > 6 && (col as u64) + 6 < (
        self.width as u64) {
            let ghost g = self@;
            self.stamp_quad(row, col, 6, 4);
            let ghost g1 = self@;
            self.stamp_quad(row, col, 6, 3);
            let ghost g2 = self@;
            self.stamp_quad(row, col, 6, 2);
            let ghost g3 = self@;
            self.stamp_quad(row, col, 2, 1);
            let ghost g4 = self@;
            self.stamp_quad(row, col, 3, 1);
            let ghost g5 = self@;
            self.stamp_quad(row, col, 4, 1);
            let ghost g6 = self@;
            self.stamp_quad(row, col, 1, 2);
            let ghost g7 = self@;
            self.stamp_quad(row, col, 1, 3);
            let ghost g8 = self@;
            self.stamp_quad(row, col, 1, 4);
            let ghost g9 = self@;
            self.stamp_quad(row, col, 2, 6);
            let ghost g10 = self@;
            self.stamp_quad(row, col, 3, 6);
            let ghost g11 = self@;
            self.stamp_quad(row, col, 4, 6);
            proof {
                assert forall|j: int| 0 <= j < self@.cells.len() implies self@.cells[j] == (
                g.cells[j] || is_pulsar_index(g, row as int, col as int, j)) by {
                    assert(is_reflection_index(g1, row as int, col as int, 6, 3, j)
                        == is_reflection_index(g, row as int, col as int, 6, 3, j));
                    assert(is_reflection_index(g2, row as int, col as int, 6, 2, j)
                        == is_reflection_index(g, row as int, col as int, 6, 2, j));
                    assert(is_reflection_index(g3, row as int, col as int, 2, 1, j)
                        == is_reflection_index(g, row as int, col as int, 2, 1, j));
                    assert(is_reflection_index(g4, row as int, col as int, 3, 1, j)
                        == is_reflection_index(g, row as int, col as int, 3, 1, j));
                    assert(is_reflection_index(g5, row as int, col as int, 4, 1, j)
                        == is_reflection_index(g, row as int, col as int, 4, 1, j));
                    assert(is_reflection_index(g6, row as int, col as int, 1, 2, j)
                        == is_reflection_index(g, row as int, col as int, 1, 2, j));
                    assert(is_reflection_index(g7, row as int, col as int, 1, 3, j)
                        == is_reflection_index(g, row as int, col as int, 1, 3, j));
                    assert(is_reflection_index(g8, row as int, col as int, 1, 4, j)
                        == is_reflection_index(g, row as int, col as int, 1, 4, j));
                    assert(is_reflection_index(g9, row as int, col as int, 2, 6, j)
                        == is_reflection_index(g, row as int, col as int, 2, 6, j));
                    assert(is_reflection_index(g10, row as int, col as int, 3, 6, j)
                        == is_reflection_index(g, row as int, col as int, 3, 6, j));
                    assert(is_reflection_index(g11, row as int, col as int, 4, 6, j)
                        == is_reflection_index(g, row as int, col as int, 4, 6, j));
                }
            }
        }
    }

    /// Read-only view of the bit buffer the host renders from: bit `j` is the
    /// cell at row `j / width`, column `j % width`.
    pub fn get_cells(&self) -> (r: &FixedBitSet)
        requires
            self.wf(),
        ensures
            bits_of(*r) == self@.cells,
            bits_of(*r).len() == self@.width * self@.height,
    {
        &self.nexts
    }
}

} // verus!
