//! A fixed-dimension pixel buffer with a bulk parallel fill.

use vstd::prelude::*;

use rayon::iter::{IndexedParallelIterator, ParallelIterator};
use rayon::slice::ParallelSliceMut;

verus! {

/// A row-major `width x height` buffer, written once and then read.
#[derive(Debug)]
pub struct Grid<T> {
    pub width: usize,
    pub height: usize,
    pub cells: Vec<T>,
}

/// The buffer holds exactly one cell per coordinate.
pub open spec fn spec_grid_wf<T>(g: Grid<T>) -> bool {
    g.cells@.len() == g.width * g.height
}

impl<T> Grid<T> {
    pub fn new(width: usize, height: usize, fill: T) -> (r: Grid<T>) where T: Copy
        requires
            width * height <= usize::MAX,
        ensures
            r.width == width,
            r.height == height,
            spec_grid_wf(r),
            forall|k: int| 0 <= k < r.cells@.len() ==> r.cells@[k] == fill,
    {
        let n = width * height;
        let mut cells: Vec<T> = Vec::new();
        let mut k: usize = 0;
        while k < n
            invariant
                cells@.len() == k,
                k <= n,
                forall|j: int| 0 <= j < k ==> cells@[j] == fill,
            decreases n - k,
        {
            cells.push(fill);
            k = k + 1;
        }
        Grid { width, height, cells }
    }

    pub fn get(&self, x: usize, y: usize) -> (r: &T)
        requires
            spec_grid_wf(*self),
            x < self.width,
            y < self.height,
        ensures
            *r == self.cells@[y * self.width + x],
    {
        let n = self.cells.len();
        proof {
            lemma_row_major_in_bounds(self.width as int, self.height as int, x as int, y as int);
            assert(n == self.width * self.height);
        }
        &self.cells[y * self.width + x]
    }

    pub fn size(&self) -> (r: usize)
        requires
            spec_grid_wf(*self),
        ensures
            r == self.width * self.height,
    {
        let n = self.cells.len();
        proof {
            assert(n == self.width * self.height);
        }
        self.width * self.height
    }

    pub fn width(&self) -> (r: usize)
        ensures
            r == self.width,
    {
        self.width
    }

    pub fn height(&self) -> (r: usize)
        ensures
            r == self.height,
    {
        self.height
    }

    /// Fills every cell with the setter's value for its coordinates, the rows
    /// shared out across the worker pool. Every cell is written exactly once,
    /// so the only promise needed of the setter is its own postcondition.
    ///
    /// Relies on rayon's `par_chunks_mut`: the buffer splits into contiguous
    /// `width`-sized chunks (the rows, in order), each handed to exactly one
    /// task, and `enumerate` numbers them in that order.
    #[verifier::external_body]
    pub fn set_all_parallel<F>(&mut self, setter: F) where
        T: Send,
        F: Fn(usize, usize) -> T + Send + Sync,

        requires
            spec_grid_wf(*old(self)),
            old(self).width > 0,
            forall|x: usize, y: usize|
                x < old(self).width && y < old(self).height ==> call_requires(setter, (x, y)),
        ensures
            final(self).width == old(self).width,
            final(self).height == old(self).height,
            spec_grid_wf(*final(self)),
            forall|x: usize, y: usize|
                x < old(self).width && y < old(self).height ==> call_ensures(
                    setter,
                    (x, y),
                    #[trigger] final(self).cells@[y * old(self).width + x],
                ),
    {
        let width = self.width;
        self.cells.par_chunks_mut(width).enumerate().for_each(|(y, row)| {
            for (x, item) in row.iter_mut().enumerate() {
                *item = setter(x, y);
            }
        });
    }
}

proof fn lemma_row_major_in_bounds(w: int, h: int, x: int, y: int)
    requires
        0 <= x < w,
        0 <= y < h,
    ensures
        y * w + x < w * h,
        0 <= y * w + x,
{
    assert(y * w + x < w * h) by (nonlinear_arith)
        requires
            0 <= x < w,
            0 <= y < h,
    ;
    assert(0 <= y * w) by (nonlinear_arith)
        requires
            0 <= y,
            0 <= w,
    ;
}

} // verus!
