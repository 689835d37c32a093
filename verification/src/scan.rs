use vstd::prelude::*;

verus! {

use crate::grid::PixelGrid;
use crate::grid::lemma_cell_of_index;
use crate::grid::lemma_row_major_index_in_range;
use crate::grid::lemma_row_major_index_injective;
use crate::grid::row_major_index;
use vstd::arithmetic::mul::lemma_mul_is_commutative;
use vstd::arithmetic::mul::lemma_mul_is_distributive_add_other_way;
use crate::viewport::Viewport;

/// An axis-aligned pixel rectangle, inclusive on both ends and already
/// clipped to a viewport. A rectangle with `x_min > x_max` or
/// `y_min > y_max` is empty and covers no pixel at all.
#[derive(Clone, Copy, Debug)]
pub struct BoundingBox {
    x_min: i32,
    x_max: i32,
    y_min: i32,
    y_max: i32,
}

impl BoundingBox {
    /// The smallest column of the rectangle.
    pub closed spec fn spec_x_min(&self) -> int {
        self.x_min as int
    }

    /// The largest column of the rectangle.
    pub closed spec fn spec_x_max(&self) -> int {
        self.x_max as int
    }

    /// The smallest row of the rectangle.
    pub closed spec fn spec_y_min(&self) -> int {
        self.y_min as int
    }

    /// The largest row of the rectangle.
    pub closed spec fn spec_y_max(&self) -> int {
        self.y_max as int
    }

    /// Whether the pixel in column `x` of row `y` lies in the rectangle.
    pub open spec fn contains(&self, x: int, y: int) -> bool {
        &&& self.spec_x_min() <= x <= self.spec_x_max()
        &&& self.spec_y_min() <= y <= self.spec_y_max()
    }

    /// Whether the rectangle covers no pixel.
    pub open spec fn spec_is_empty(&self) -> bool {
        self.spec_x_min() > self.spec_x_max() || self.spec_y_min() > self.spec_y_max()
    }

    /// Whether every pixel of the rectangle lies inside a grid of the given
    /// dimensions. An empty rectangle lies inside every grid.
    pub open spec fn within(&self, width: int, height: int) -> bool {
        &&& 0 <= self.spec_x_min()
        &&& self.spec_x_max() < width
        &&& 0 <= self.spec_y_min()
        &&& self.spec_y_max() < height
    }

    /// The number of pixels the rectangle covers.
    pub open spec fn spec_area(&self) -> int {
        if self.spec_is_empty() {
            0
        } else {
            (self.spec_x_max() - self.spec_x_min() + 1) * (self.spec_y_max() - self.spec_y_min()
                + 1)
        }
    }

    /// The position of the pixel in column `x` of row `y` among the
    /// rectangle's own pixels, counted in row-major order from its top-left
    /// corner. Meaningful for pixels the rectangle contains.
    pub open spec fn spec_sample_index(&self, x: int, y: int) -> int {
        row_major_index(
            self.spec_x_max() - self.spec_x_min() + 1,
            x - self.spec_x_min(),
            y - self.spec_y_min(),
        )
    }

    /// Each pixel of the rectangle has a sample position inside `[0, area)`.
    pub proof fn lemma_sample_index_in_range(&self, x: int, y: int)
        requires
            self.contains(x, y),
        ensures
            0 <= self.spec_sample_index(x, y) < self.spec_area(),
    {
        lemma_row_major_index_in_range(
            self.spec_x_max() - self.spec_x_min() + 1,
            self.spec_y_max() - self.spec_y_min() + 1,
            x - self.spec_x_min(),
            y - self.spec_y_min(),
        );
    }

    /// Distinct pixels of the rectangle have distinct sample positions.
    pub proof fn lemma_sample_index_injective(&self, x1: int, y1: int, x2: int, y2: int)
        requires
            self.contains(x1, y1),
            self.contains(x2, y2),
            self.spec_sample_index(x1, y1) == self.spec_sample_index(x2, y2),
        ensures
            x1 == x2 && y1 == y2,
    {
        lemma_row_major_index_injective(
            self.spec_x_max() - self.spec_x_min() + 1,
            x1 - self.spec_x_min(),
            y1 - self.spec_y_min(),
            x2 - self.spec_x_min(),
            y2 - self.spec_y_min(),
        );
    }

    /// Clips the rectangle `[x_min, x_max] x [y_min, y_max]` to the
    /// viewport, that is to `[0, width - 1] x [0, height - 1]`.
    ///
    /// This is how the rasterizer bounds the pixels it has to test: the
    /// corners come from the projected triangle (truncated toward zero by
    /// the caller), and a triangle that lies outside the viewport yields an
    /// empty rectangle, so no pixel is visited at all.
    pub fn clamped(vp: &Viewport, x_min: i32, x_max: i32, y_min: i32, y_max: i32) -> (b:
        BoundingBox)
        requires
            vp.wf(),
        ensures
            b.within(vp.spec_width(), vp.spec_height()),
            b.spec_x_min() == if x_min < 0 { 0int } else { x_min as int },
            b.spec_x_max() == if x_max > vp.spec_width() - 1 { vp.spec_width() - 1 } else {
                x_max as int
            },
            b.spec_y_min() == if y_min < 0 { 0int } else { y_min as int },
            b.spec_y_max() == if y_max > vp.spec_height() - 1 { vp.spec_height() - 1 } else {
                y_max as int
            },
            forall|x: int, y: int|
                #[trigger] b.contains(x, y) <==> (x_min <= x <= x_max && y_min <= y <= y_max && 0
                    <= x < vp.spec_width() && 0 <= y < vp.spec_height()),
    {
        let w1: i32 = vp.width() - 1;
        let h1: i32 = vp.height() - 1;
        let bx_min: i32 = if x_min < 0 { 0 } else { x_min };
        let bx_max: i32 = if x_max > w1 { w1 } else { x_max };
        let by_min: i32 = if y_min < 0 { 0 } else { y_min };
        let by_max: i32 = if y_max > h1 { h1 } else { y_max };
        BoundingBox { x_min: bx_min, x_max: bx_max, y_min: by_min, y_max: by_max }
    }

    /// The smallest column of the rectangle.
    pub fn x_min(&self) -> (v: i32)
        ensures
            v as int == self.spec_x_min(),
    {
        self.x_min
    }

    /// The largest column of the rectangle.
    pub fn x_max(&self) -> (v: i32)
        ensures
            v as int == self.spec_x_max(),
    {
        self.x_max
    }

    /// The smallest row of the rectangle.
    pub fn y_min(&self) -> (v: i32)
        ensures
            v as int == self.spec_y_min(),
    {
        self.y_min
    }

    /// The largest row of the rectangle.
    pub fn y_max(&self) -> (v: i32)
        ensures
            v as int == self.spec_y_max(),
    {
        self.y_max
    }

    /// Whether the rectangle covers no pixel.
    pub fn is_empty(&self) -> (e: bool)
        ensures
            e == self.spec_is_empty(),
    {
        self.x_min > self.x_max || self.y_min > self.y_max
    }

    /// Whether every pixel of the rectangle lies inside the viewport.
    pub fn fits(&self, vp: &Viewport) -> (f: bool)
        ensures
            f == self.within(vp.spec_width(), vp.spec_height()),
    {
        0 <= self.x_min && self.x_max < vp.width() && 0 <= self.y_min && self.y_max < vp.height()
    }
}

/// One frame's coverage scan: it walks the clipped bounding box in row-major
/// order and asks a shading stage, pixel by pixel, whether the pixel is
/// covered and which color it takes.
///
/// The caller drives the scan as a loop: [`FrameScan::next_sample`] names
/// the pixel to test, [`FrameScan::supply`] takes the answer — `Some(color)`
/// writes the color, `None` leaves the pixel alone — and
/// [`FrameScan::finish`] hands the completed buffer over. The contracts
/// guarantee that each pixel of the box is offered exactly once and that
/// every pixel never written — outside the box, or not covered — still holds
/// the fill value the frame started from.
pub struct FrameScan<T> {
    grid: PixelGrid<T>,
    rect: BoundingBox,
    x: i32,
    y: i32,
    done: bool,
    fill: T,
}

impl<T: Copy> FrameScan<T> {
    /// The width of the frame, as a mathematical integer.
    pub closed spec fn spec_width(&self) -> int {
        self.grid.spec_width()
    }

    /// The height of the frame, as a mathematical integer.
    pub closed spec fn spec_height(&self) -> int {
        self.grid.spec_height()
    }

    /// The pixel contents so far, in row-major order.
    pub closed spec fn cells(&self) -> Seq<T> {
        self.grid.cells()
    }

    /// The value every pixel started from.
    pub closed spec fn spec_fill(&self) -> T {
        self.fill
    }

    /// The clipped bounding box the scan walks.
    pub closed spec fn spec_box(&self) -> BoundingBox {
        self.rect
    }

    /// Whether the scan has offered every pixel of the box.
    pub closed spec fn spec_done(&self) -> bool {
        self.done
    }

    /// The column of the pixel offered next, meaningful while the scan is
    /// not done.
    pub closed spec fn spec_x(&self) -> int {
        self.x as int
    }

    /// The row of the pixel offered next, meaningful while the scan is not
    /// done.
    pub closed spec fn spec_y(&self) -> int {
        self.y as int
    }

    /// Whether the scan has already moved past the pixel in column `x` of
    /// row `y`: the pixel lies in the box and comes strictly before the
    /// cursor in row-major order.
    pub open spec fn visited(&self, x: int, y: int) -> bool {
        &&& self.spec_box().contains(x, y)
        &&& (self.spec_done() || y < self.spec_y() || (y == self.spec_y() && x < self.spec_x()))
    }

    /// Internal invariant: the grid is well formed, the box lies within it,
    /// the cursor (while the scan runs) points into the box, and every pixel
    /// the scan has not moved past still holds the fill value.
    pub closed spec fn wf(&self) -> bool {
        &&& self.grid.wf()
        &&& self.rect.within(self.spec_width(), self.spec_height())
        &&& (!self.done ==> self.rect.contains(self.spec_x(), self.spec_y()))
        &&& forall|x: int, y: int|
            0 <= x < self.spec_width() && 0 <= y < self.spec_height() && !self.visited(x, y)
                ==> self.cells()[#[trigger] row_major_index(self.spec_width(), x, y)]
                == self.spec_fill()
    }

    /// Starts the scan of one frame: allocates the pixel buffer, every cell
    /// set to `fill`, and places the cursor on the first pixel of `rect`. An
    /// empty rectangle completes the scan immediately, so the buffer is
    /// returned untouched.
    pub fn new(vp: &Viewport, fill: T, rect: BoundingBox) -> (s: FrameScan<T>)
        requires
            vp.wf(),
            vp.spec_pixel_count() <= usize::MAX as int,
            rect.within(vp.spec_width(), vp.spec_height()),
        ensures
            s.wf(),
            s.spec_width() == vp.spec_width(),
            s.spec_height() == vp.spec_height(),
            s.spec_fill() == fill,
            s.spec_box() == rect,
            s.cells().len() == vp.spec_pixel_count(),
            forall|k: int| 0 <= k < s.cells().len() ==> s.cells()[k] == fill,
            s.spec_done() == rect.spec_is_empty(),
            !rect.spec_is_empty() ==> s.spec_x() == rect.spec_x_min() && s.spec_y()
                == rect.spec_y_min(),
    {
        let grid = PixelGrid::new(vp, fill);
        let empty = rect.is_empty();
        let s = FrameScan { grid, rect, x: rect.x_min(), y: rect.y_min(), done: empty, fill };
        proof {
            assert forall|x: int, y: int|
                0 <= x < s.spec_width() && 0 <= y < s.spec_height() && !s.visited(x, y)
                    implies s.cells()[#[trigger] row_major_index(s.spec_width(), x, y)]
                == s.spec_fill() by {
                lemma_row_major_index_in_range(s.spec_width(), s.spec_height(), x, y);
            }
        }
        s
    }

    /// The pixel the shading stage must test next, or `None` once every
    /// pixel of the box has been offered.
    pub fn next_sample(&self) -> (p: Option<(i32, i32)>)
        requires
            self.wf(),
        ensures
            (p is Some) <==> !self.spec_done(),
            p matches Some(q) ==> q.0 as int == self.spec_x() && q.1 as int == self.spec_y()
                && self.spec_box().contains(q.0 as int, q.1 as int),
    {
        if self.done {
            None
        } else {
            Some((self.x, self.y))
        }
    }

    /// Takes the shading stage's answer for the pixel the cursor points at:
    /// `Some(color)` overwrites that pixel, `None` leaves it at its current
    /// value. The cursor then moves to the next pixel of the box in
    /// row-major order, or the scan completes on the box's last pixel.
    pub fn supply(&mut self, sample: Option<T>)
        requires
            old(self).wf(),
            !old(self).spec_done(),
        ensures
            final(self).wf(),
            final(self).spec_width() == old(self).spec_width(),
            final(self).spec_height() == old(self).spec_height(),
            final(self).spec_fill() == old(self).spec_fill(),
            final(self).spec_box() == old(self).spec_box(),
            sample matches Some(c) ==> final(self).cells() == old(self).cells().update(
                row_major_index(old(self).spec_width(), old(self).spec_x(), old(self).spec_y()),
                c,
            ),
            (sample is None) ==> final(self).cells() == old(self).cells(),
            old(self).spec_x() < old(self).spec_box().spec_x_max() ==> !final(self).spec_done()
                && final(self).spec_x() == old(self).spec_x() + 1 && final(self).spec_y() == old(
                self,
            ).spec_y(),
            old(self).spec_x() == old(self).spec_box().spec_x_max() && old(self).spec_y() < old(
                self,
            ).spec_box().spec_y_max() ==> !final(self).spec_done() && final(self).spec_x() == old(
                self,
            ).spec_box().spec_x_min() && final(self).spec_y() == old(self).spec_y() + 1,
            old(self).spec_x() == old(self).spec_box().spec_x_max() && old(self).spec_y() == old(
                self,
            ).spec_box().spec_y_max() ==> final(self).spec_done(),
    {
        let ghost pre = *self;
        if let Some(c) = sample {
            self.grid.set(self.x, self.y, c);
        }
        if self.x < self.rect.x_max {
            self.x = self.x + 1;
        } else if self.y < self.rect.y_max {
            self.x = self.rect.x_min;
            self.y = self.y + 1;
        } else {
            self.done = true;
        }
        proof {
            assert forall|x: int, y: int|
                0 <= x < self.spec_width() && 0 <= y < self.spec_height() && !self.visited(x, y)
                    implies self.cells()[#[trigger] row_major_index(self.spec_width(), x, y)]
                == self.spec_fill() by {
                let w = pre.spec_width();
                let h = pre.spec_height();
                let cx = pre.spec_x();
                let cy = pre.spec_y();
                // The pixel the cursor pointed at has now been moved past,
                // so the invariant says nothing about it; every other pixel
                // kept its previous value.
                assert(!pre.visited(x, y));
                lemma_row_major_index_in_range(w, h, cx, cy);
                if row_major_index(w, x, y) == row_major_index(w, cx, cy) {
                    lemma_row_major_index_injective(w, x, y, cx, cy);
                    assert(self.visited(x, y));
                } else {
                    lemma_row_major_index_in_range(w, h, x, y);
                    assert(self.cells()[row_major_index(w, x, y)] == pre.cells()[row_major_index(
                        w,
                        x,
                        y,
                    )]);
                }
            }
        }
    }

    /// Hands the finished frame to the caller: exactly `width * height`
    /// pixels, row-major, where every pixel outside the bounding box still
    /// holds the fill value.
    pub fn finish(self) -> (pixels: Vec<T>)
        requires
            self.wf(),
            self.spec_done(),
        ensures
            pixels@ == self.cells(),
            pixels@.len() == self.spec_width() * self.spec_height(),
            forall|x: int, y: int|
                0 <= x < self.spec_width() && 0 <= y < self.spec_height() && !self.spec_box()
                    .contains(x, y) ==> pixels@[#[trigger] row_major_index(
                    self.spec_width(),
                    x,
                    y,
                )] == self.spec_fill(),
    {
        self.grid.into_cells()
    }

    /// Law: while a scan runs and after it completes, a pixel the bounding
    /// box does not cover holds the fill value.
    pub proof fn lemma_outside_box_keeps_fill(&self, x: int, y: int)
        requires
            self.wf(),
            0 <= x < self.spec_width(),
            0 <= y < self.spec_height(),
            !self.spec_box().contains(x, y),
        ensures
            self.cells()[row_major_index(self.spec_width(), x, y)] == self.spec_fill(),
    {
    }

    /// Law: while a scan runs, the pixel it offers next has not been
    /// offered before — no pixel of the box is ever visited twice.
    pub proof fn lemma_cursor_not_yet_visited(&self)
        requires
            self.wf(),
            !self.spec_done(),
        ensures
            self.spec_box().contains(self.spec_x(), self.spec_y()),
            !self.visited(self.spec_x(), self.spec_y()),
    {
    }

    /// Law: a scan over an empty bounding box — a triangle entirely outside
    /// the viewport — leaves every pixel of the frame at the fill value.
    pub proof fn lemma_empty_box_all_fill(&self)
        requires
            self.wf(),
            self.spec_box().spec_is_empty(),
        ensures
            forall|k: int| 0 <= k < self.cells().len() ==> self.cells()[k] == self.spec_fill(),
    {
        let w = self.spec_width();
        let h = self.spec_height();
        assert forall|k: int| 0 <= k < self.cells().len() implies self.cells()[k]
            == self.spec_fill() by {
            lemma_cell_of_index(w, h, k);
            assert(!self.visited(k % w, k / w));
            assert(self.cells()[row_major_index(w, k % w, k / w)] == self.spec_fill());
        }
    }
}

/// The write stage of one frame in a single call: given the shading stage's
/// verdict for every pixel of the clipped bounding box `rect` — in row-major
/// order, `Some(color)` for a covered pixel, `None` for an uncovered one —
/// produce the complete frame.
///
/// Law: the frame holds exactly `width * height` pixels; each pixel of the
/// box holds its own sample's color, or `fill` where the sample left it
/// uncovered; every pixel outside the box holds `fill`.
pub fn paint<T: Copy>(vp: &Viewport, fill: T, rect: BoundingBox, samples: &Vec<Option<T>>) -> (
    pixels: Vec<T>)
    requires
        vp.wf(),
        vp.spec_pixel_count() <= usize::MAX as int,
        rect.within(vp.spec_width(), vp.spec_height()),
        samples@.len() == rect.spec_area(),
    ensures
        pixels@.len() == vp.spec_pixel_count(),
        forall|x: int, y: int|
            0 <= x < vp.spec_width() && 0 <= y < vp.spec_height() && !rect.contains(x, y)
                ==> pixels@[#[trigger] row_major_index(vp.spec_width(), x, y)] == fill,
        forall|x: int, y: int|
            #[trigger] rect.contains(x, y) ==> pixels@[row_major_index(vp.spec_width(), x, y)]
                == (match samples@[rect.spec_sample_index(x, y)] {
                Some(c) => c,
                None => fill,
            }),
{
    let mut scan: FrameScan<T> = FrameScan::new(vp, fill, rect);
    let total: usize = samples.len();
    let mut k: usize = 0;
    proof {
        assert forall|x: int, y: int| #[trigger] rect.contains(x, y) implies (scan.visited(x, y)
            <==> rect.spec_sample_index(x, y) < k as int) by {
            rect.lemma_sample_index_in_range(x, y);
        }
    }
    while k < total
        invariant
            scan.wf(),
            scan.spec_box() == rect,
            scan.spec_width() == vp.spec_width(),
            scan.spec_height() == vp.spec_height(),
            scan.spec_fill() == fill,
            scan.cells().len() == vp.spec_pixel_count(),
            vp.wf(),
            rect.within(vp.spec_width(), vp.spec_height()),
            samples@.len() == rect.spec_area(),
            total as int == rect.spec_area(),
            k <= total,
            !scan.spec_done() ==> k as int == rect.spec_sample_index(scan.spec_x(), scan.spec_y()),
            scan.spec_done() ==> k as int == rect.spec_area(),
            forall|x: int, y: int|
                #[trigger] scan.visited(x, y) ==> scan.cells()[row_major_index(
                    vp.spec_width(),
                    x,
                    y,
                )] == (match samples@[rect.spec_sample_index(x, y)] {
                    Some(c) => c,
                    None => fill,
                }),
            forall|x: int, y: int|
                #[trigger] rect.contains(x, y) ==> (scan.visited(x, y) <==> rect.spec_sample_index(
                    x,
                    y,
                ) < k as int),
        decreases total - k,
    {
        let ghost pre = scan;
        proof {
            // The scan cannot be done: were it done, `k` would already
            // equal the box's area.
            rect.lemma_sample_index_in_range(pre.spec_x(), pre.spec_y());
        }
        let s: Option<T> = samples[k];
        scan.supply(s);
        k = k + 1;
        proof {
            let w = vp.spec_width();
            let h = vp.spec_height();
            let cx = pre.spec_x();
            let cy = pre.spec_y();
            let bw = rect.spec_x_max() - rect.spec_x_min() + 1;
            let bh = rect.spec_y_max() - rect.spec_y_min() + 1;
            // The sample position of the pixel after the cursor — or the
            // box's area, on its last pixel — is one more than the
            // cursor's own.
            if cx == rect.spec_x_max() {
                lemma_mul_is_distributive_add_other_way(bw, cy - rect.spec_y_min(), 1);
                if cy == rect.spec_y_max() {
                    lemma_mul_is_commutative(bw, bh);
                }
            }
            assert forall|x: int, y: int| #[trigger] scan.visited(x, y) implies scan.cells()[
                row_major_index(w, x, y)] == (match samples@[rect.spec_sample_index(x, y)] {
                Some(c) => c,
                None => fill,
            }) by {
                lemma_row_major_index_in_range(w, h, x, y);
                lemma_row_major_index_in_range(w, h, cx, cy);
                if x == cx && y == cy {
                    // The pixel supplied this iteration: its cell now holds
                    // the sample, which before was still at the fill value.
                    assert(!pre.visited(cx, cy));
                } else {
                    // Any other pixel kept its cell: distinct pixels sit at
                    // distinct positions of the buffer.
                    if row_major_index(w, x, y) == row_major_index(w, cx, cy) {
                        lemma_row_major_index_injective(w, x, y, cx, cy);
                    }
                    assert(pre.visited(x, y));
                }
            }
            assert forall|x: int, y: int| #[trigger] rect.contains(x, y) implies (scan.visited(
                x,
                y,
            ) <==> rect.spec_sample_index(x, y) < k as int) by {
                rect.lemma_sample_index_in_range(x, y);
                if !(x == cx && y == cy) {
                    if rect.spec_sample_index(x, y) == rect.spec_sample_index(cx, cy) {
                        rect.lemma_sample_index_injective(x, y, cx, cy);
                    }
                }
            }
        }
    }
    proof {
        // Every sample has been consumed, so the scan is done.
        if !scan.spec_done() {
            rect.lemma_sample_index_in_range(scan.spec_x(), scan.spec_y());
        }
    }
    let ghost fin = scan;
    let pixels = scan.finish();
    proof {
        assert forall|x: int, y: int| #[trigger] rect.contains(x, y) implies pixels@[
            row_major_index(vp.spec_width(), x, y)] == (match samples@[rect.spec_sample_index(
            x,
            y,
        )] {
            Some(c) => c,
            None => fill,
        }) by {
            rect.lemma_sample_index_in_range(x, y);
            assert(fin.visited(x, y));
        }
    }
    pixels
}

} // verus!
