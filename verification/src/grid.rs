use vstd::prelude::*;

verus! {

use crate::viewport::Viewport;
use vstd::arithmetic::div_mod::lemma_div_pos_is_pos;
use vstd::arithmetic::div_mod::lemma_fundamental_div_mod;
use vstd::arithmetic::div_mod::lemma_mod_division_less_than_divisor;
use vstd::arithmetic::div_mod::lemma_multiply_divide_lt;
use vstd::arithmetic::mul::lemma_mul_is_commutative;

/// Row-major position of the cell in column `x` of row `y`, in a grid that
/// is `width` cells wide.
pub open spec fn row_major_index(width: int, x: int, y: int) -> int {
    x + y * width
}

/// `v` clamped into the inclusive range `[lo, hi]`.
pub open spec fn spec_clamp(v: int, lo: int, hi: int) -> int {
    if v < lo {
        lo
    } else if v > hi {
        hi
    } else {
        v
    }
}

/// Cells of a grid have distinct row-major positions: two in-range columns
/// with arbitrary rows can only share a position by being the same cell.
pub proof fn lemma_row_major_index_injective(
    width: int,
    x1: int,
    y1: int,
    x2: int,
    y2: int,
) by (nonlinear_arith)
    requires
        0 <= x1 < width,
        0 <= x2 < width,
        row_major_index(width, x1, y1) == row_major_index(width, x2, y2),
    ensures
        x1 == x2 && y1 == y2,
{
}

/// The row-major position of an in-range cell lies inside the buffer.
pub proof fn lemma_row_major_index_in_range(
    width: int,
    height: int,
    x: int,
    y: int,
) by (nonlinear_arith)
    requires
        0 <= x < width,
        0 <= y < height,
    ensures
        0 <= row_major_index(width, x, y) < width * height,
        y * width <= row_major_index(width, x, y),
{
}

/// Every buffer position belongs to exactly one cell: index `k` holds the
/// cell in column `k % width` of row `k / width`.
pub proof fn lemma_cell_of_index(width: int, height: int, k: int)
    requires
        0 < width,
        0 < height,
        0 <= k < width * height,
    ensures
        0 <= k % width < width,
        0 <= k / width < height,
        row_major_index(width, k % width, k / width) == k,
{
    lemma_fundamental_div_mod(k, width);
    lemma_mod_division_less_than_divisor(k, width);
    lemma_div_pos_is_pos(k, width);
    lemma_multiply_divide_lt(k, width, height);
    lemma_mul_is_commutative(k / width, width);
}

/// A row-major pixel buffer of `width * height` cells, origin at the top
/// left, with `y` growing downward: the cell in column `x` of row `y` sits
/// at index `x + y * width`.
///
/// The buffer is generic in its cell type so that the unverified shading
/// stage can choose the color representation; the grid itself only moves
/// whole cell values.
pub struct PixelGrid<T> {
    width: i32,
    height: i32,
    cells: Vec<T>,
}

impl<T: Copy> PixelGrid<T> {
    /// The width of the grid, as a mathematical integer.
    pub closed spec fn spec_width(&self) -> int {
        self.width as int
    }

    /// The height of the grid, as a mathematical integer.
    pub closed spec fn spec_height(&self) -> int {
        self.height as int
    }

    /// The cell contents, in row-major order.
    pub closed spec fn cells(&self) -> Seq<T> {
        self.cells@
    }

    /// Well-formedness: positive dimensions and a fully allocated buffer.
    pub open spec fn wf(&self) -> bool {
        &&& 0 < self.spec_width()
        &&& 0 < self.spec_height()
        &&& self.cells().len() == self.spec_width() * self.spec_height()
    }

    /// Allocates the buffer for one frame, every cell set to `fill`.
    pub fn new(vp: &Viewport, fill: T) -> (g: PixelGrid<T>)
        requires
            vp.wf(),
            vp.spec_pixel_count() <= usize::MAX as int,
        ensures
            g.wf(),
            g.spec_width() == vp.spec_width(),
            g.spec_height() == vp.spec_height(),
            g.cells().len() == vp.spec_pixel_count(),
            forall|k: int| 0 <= k < g.cells().len() ==> g.cells()[k] == fill,
    {
        let n: usize = vp.pixel_count();
        let mut cells: Vec<T> = Vec::new();
        let mut i: usize = 0;
        while i < n
            invariant
                i <= n,
                cells@.len() == i as int,
                forall|k: int| 0 <= k < i as int ==> cells@[k] == fill,
            decreases n - i,
        {
            cells.push(fill);
            i = i + 1;
        }
        PixelGrid { width: vp.width(), height: vp.height(), cells }
    }

    /// The width of the grid.
    pub fn width(&self) -> (w: i32)
        ensures
            w as int == self.spec_width(),
    {
        self.width
    }

    /// The height of the grid.
    pub fn height(&self) -> (h: i32)
        ensures
            h as int == self.spec_height(),
    {
        self.height
    }

    /// The number of cells of the buffer.
    pub fn len(&self) -> (n: usize)
        ensures
            n as int == self.cells().len(),
    {
        self.cells.len()
    }

    /// Overwrites the cell in column `x` of row `y`; no other cell changes.
    pub fn set(&mut self, x: i32, y: i32, v: T)
        requires
            old(self).wf(),
            0 <= x < old(self).spec_width(),
            0 <= y < old(self).spec_height(),
        ensures
            final(self).wf(),
            final(self).spec_width() == old(self).spec_width(),
            final(self).spec_height() == old(self).spec_height(),
            final(self).cells() == old(self).cells().update(
                row_major_index(old(self).spec_width(), x as int, y as int),
                v,
            ),
    {
        let n: usize = self.cells.len();
        proof {
            lemma_row_major_index_in_range(
                self.spec_width(),
                self.spec_height(),
                x as int,
                y as int,
            );
            // The position lies inside the buffer, whose length fits in
            // usize, so the index arithmetic below cannot overflow.
            assert(row_major_index(self.spec_width(), x as int, y as int) < n as int);
        }
        let idx: usize = (x as usize) + (y as usize) * (self.width as usize);
        self.cells[idx] = v;
    }

    /// Reads the cell in column `x` of row `y`.
    pub fn get(&self, x: i32, y: i32) -> (v: T)
        requires
            self.wf(),
            0 <= x < self.spec_width(),
            0 <= y < self.spec_height(),
        ensures
            v == self.cells()[row_major_index(self.spec_width(), x as int, y as int)],
    {
        let n: usize = self.cells.len();
        proof {
            lemma_row_major_index_in_range(
                self.spec_width(),
                self.spec_height(),
                x as int,
                y as int,
            );
            // The position lies inside the buffer, whose length fits in
            // usize, so the index arithmetic below cannot overflow.
            assert(row_major_index(self.spec_width(), x as int, y as int) < n as int);
        }
        let idx: usize = (x as usize) + (y as usize) * (self.width as usize);
        self.cells[idx]
    }

    /// Reads the cell nearest to `(x, y)`: coordinates outside the grid are
    /// clamped onto its border before indexing.
    pub fn get_clamped(&self, x: i32, y: i32) -> (v: T)
        requires
            self.wf(),
        ensures
            v == self.cells()[row_major_index(
                self.spec_width(),
                spec_clamp(x as int, 0, self.spec_width() - 1),
                spec_clamp(y as int, 0, self.spec_height() - 1),
            )],
    {
        let cx: i32 = if x < 0 {
            0
        } else if x >= self.width {
            self.width - 1
        } else {
            x
        };
        let cy: i32 = if y < 0 {
            0
        } else if y >= self.height {
            self.height - 1
        } else {
            y
        };
        self.get(cx, cy)
    }

    /// Hands the finished buffer to the caller, giving up the grid.
    pub fn into_cells(self) -> (v: Vec<T>)
        ensures
            v@ == self.cells(),
    {
        self.cells
    }
}

} // verus!
