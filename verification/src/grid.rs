//! A dense row-major two-dimensional grid of pixels.
//!
//! Render strategies fill one of these per glyph: a grid of booleans for
//! the point-plotted mono style, a grid of characters for the text styles,
//! and a grid of luminance bytes inside a rasterized bitmap.

use vstd::prelude::*;

verus! {

/// A rectangular grid stored row by row in one flat vector.
pub struct Grid<T> {
    rows: usize,
    cols: usize,
    cells: Vec<T>,
}

impl<T> Grid<T> {
    /// The grid stores exactly `rows * cols` cells.
    pub closed spec fn wf(self) -> bool {
        &&& self.cells@.len() == self.rows * self.cols
        &&& self.rows * self.cols <= usize::MAX
    }

    pub closed spec fn spec_rows(self) -> int {
        self.rows as int
    }

    pub closed spec fn spec_cols(self) -> int {
        self.cols as int
    }

    /// The cell in row `r`, column `c`.
    pub closed spec fn spec_at(self, r: int, c: int) -> T {
        self.cells@[r * self.cols + c]
    }

    /// A well-formed grid's cell count stays within machine bounds.
    pub proof fn lemma_wf_bound(self)
        requires
            self.wf(),
        ensures
            self.spec_rows() * self.spec_cols() <= usize::MAX,
    {
    }

    pub fn rows(&self) -> (r: usize)
        ensures
            r == self.spec_rows(),
    {
        self.rows
    }

    pub fn cols(&self) -> (r: usize)
        ensures
            r == self.spec_cols(),
    {
        self.cols
    }

    pub fn get(&self, r: usize, c: usize) -> (v: &T)
        requires
            self.wf(),
            r < self.spec_rows(),
            c < self.spec_cols(),
        ensures
            *v == self.spec_at(r as int, c as int),
    {
        proof {
            lemma_grid_index_bound(r as int, c as int, self.rows as int, self.cols as int);
        }
        &self.cells[r * self.cols + c]
    }

    pub fn set(&mut self, r: usize, c: usize, v: T)
        requires
            old(self).wf(),
            r < old(self).spec_rows(),
            c < old(self).spec_cols(),
        ensures
            final(self).wf(),
            final(self).spec_rows() == old(self).spec_rows(),
            final(self).spec_cols() == old(self).spec_cols(),
            final(self).spec_at(r as int, c as int) == v,
            forall|i: int, j: int|
                0 <= i < old(self).spec_rows() && 0 <= j < old(self).spec_cols() && (i != r || j
                    != c) ==> final(self).spec_at(i, j) == old(self).spec_at(i, j),
    {
        proof {
            lemma_grid_index_bound(r as int, c as int, self.rows as int, self.cols as int);
        }
        let idx: usize = r * self.cols + c;
        self.cells.set(idx, v);
        proof {
            assert forall|i: int, j: int|
                0 <= i < old(self).spec_rows() && 0 <= j < old(self).spec_cols() && (i != r as int
                    || j != c as int) implies final(self).spec_at(i, j) == old(self).spec_at(
                i,
                j,
            ) by {
                lemma_grid_index_bound(i, j, self.rows as int, self.cols as int);
                lemma_grid_index_injective(i, j, r as int, c as int, self.cols as int);
            }
        }
    }
}

impl<T> Grid<T> {
    /// Wrap a flat row-major vector of `rows * cols` cells.
    pub fn from_flat(rows: usize, cols: usize, cells: Vec<T>) -> (g: Grid<T>)
        requires
            cells@.len() == rows * cols,
            rows * cols <= usize::MAX,
        ensures
            g.wf(),
            g.spec_rows() == rows,
            g.spec_cols() == cols,
            forall|i: int, j: int|
                0 <= i < rows && 0 <= j < cols ==> g.spec_at(i, j) == cells@[i * cols + j],
    {
        let g = Grid { rows, cols, cells };
        proof {
            assert forall|i: int, j: int| 0 <= i < rows && 0 <= j < cols implies g.spec_at(i, j)
                == g.cells@[i * cols + j] by {
                lemma_grid_index_bound(i, j, rows as int, cols as int);
            }
        }
        g
    }
}

impl<T: Copy> Grid<T> {
    /// A fresh grid with every cell holding `fill`.
    pub fn new_filled(rows: usize, cols: usize, fill: T) -> (g: Grid<T>)
        requires
            rows * cols <= usize::MAX,
        ensures
            g.wf(),
            g.spec_rows() == rows,
            g.spec_cols() == cols,
            forall|i: int, j: int|
                0 <= i < rows && 0 <= j < cols ==> g.spec_at(i, j) == fill,
    {
        let total: usize = rows * cols;
        let mut cells: Vec<T> = Vec::new();
        let mut k: usize = 0;
        while k < total
            invariant
                k <= total,
                total == rows * cols,
                cells@.len() == k,
                forall|m: int| 0 <= m < k ==> cells@[m] == fill,
            decreases total - k,
        {
            cells.push(fill);
            k = k + 1;
        }
        let g = Grid { rows, cols, cells };
        proof {
            assert forall|i: int, j: int| 0 <= i < rows && 0 <= j < cols implies g.spec_at(i, j)
                == fill by {
                lemma_grid_index_bound(i, j, rows as int, cols as int);
            }
        }
        g
    }
}

/// A cell's flat index lies inside the grid's backing vector.
proof fn lemma_grid_index_bound(r: int, c: int, rows: int, cols: int)
    requires
        0 <= r < rows,
        0 <= c < cols,
    ensures
        0 <= r * cols + c < rows * cols,
{
    assert(0 <= r * cols + c < rows * cols) by (nonlinear_arith)
        requires
            0 <= r < rows,
            0 <= c < cols,
    ;
}

/// Distinct cells have distinct flat indices.
proof fn lemma_grid_index_injective(r1: int, c1: int, r2: int, c2: int, cols: int)
    requires
        0 <= c1 < cols,
        0 <= c2 < cols,
        0 <= r1,
        0 <= r2,
        r1 != r2 || c1 != c2,
    ensures
        r1 * cols + c1 != r2 * cols + c2,
{
    assert(r1 * cols + c1 != r2 * cols + c2) by (nonlinear_arith)
        requires
            0 <= c1 < cols,
            0 <= c2 < cols,
            0 <= r1,
            0 <= r2,
            r1 != r2 || c1 != c2,
    ;
}

} // verus!
