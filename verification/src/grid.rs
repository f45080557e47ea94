//! The grayscale sample grid that every engine stage operates on, together
//! with the edge-clamped sampling helper that all resampling kernels share.

use vstd::prelude::*;

verus! {

/// The largest width or height a grid may have. Adversarially large
/// dimension claims are rejected before any allocation is attempted.
pub const MAX_DIM: usize = 4096;

/// The mathematical model of a grid: dimensions plus a flat row-major
/// sequence of single-channel intensity samples.
pub struct GridModel {
    pub width: int,
    pub height: int,
    pub data: Seq<u8>,
}

impl GridModel {
    /// A structurally valid grid: both dimensions in `1..=MAX_DIM` and the
    /// sample sequence exactly `width * height` long.
    pub open spec fn wf(self) -> bool {
        &&& 1 <= self.width <= MAX_DIM as int
        &&& 1 <= self.height <= MAX_DIM as int
        &&& self.data.len() == self.width * self.height
    }

    /// The sample at column `x`, row `y` (row-major layout).
    pub open spec fn at(self, x: int, y: int) -> u8 {
        self.data[y * self.width + x]
    }

    /// The sample at the clamp of `(x, y)` to the valid coordinate
    /// rectangle: any coordinate outside `[0, width) x [0, height)` reads
    /// the nearest valid coordinate instead.
    pub open spec fn at_clamped(self, x: int, y: int) -> u8 {
        self.at(clamp_coord(x, self.width), clamp_coord(y, self.height))
    }
}

/// The clamp of `v` to `[0, n)`.
pub open spec fn clamp_coord(v: int, n: int) -> int {
    if v < 0 {
        0
    } else if v >= n {
        n - 1
    } else {
        v
    }
}

/// A grayscale sample grid: `width * height` single-channel samples in
/// row-major order, one `u8` intensity each.
pub struct GrayscaleGrid {
    pub width: usize,
    pub height: usize,
    pub data: Vec<u8>,
}

impl GrayscaleGrid {
    pub open spec fn view(self) -> GridModel {
        GridModel { width: self.width as int, height: self.height as int, data: self.data@ }
    }

    pub open spec fn wf(self) -> bool {
        self.view().wf()
    }

    /// The sample at `(x, y)`; coordinates must be in bounds.
    pub fn at(&self, x: usize, y: usize) -> (r: u8)
        requires
            self.wf(),
            x < self@.width,
            y < self@.height,
        ensures
            r == self@.at(x as int, y as int),
    {
        proof {
            let w = self@.width;
            let h = self@.height;
            assert((y as int) * w + x < h * w && h * w == w * h && h * w <= MAX_DIM as int
                * MAX_DIM as int) by (nonlinear_arith)
                requires
                    0 <= x < w,
                    0 <= y as int,
                    y as int + 1 <= h,
                    1 <= w <= MAX_DIM as int,
                    1 <= h <= MAX_DIM as int,
            ;
        }
        self.data[y * self.width + x]
    }

    /// Edge-clamped sampling: out-of-range coordinates read the nearest
    /// valid sample, so no kernel support radius can reach past the grid.
    pub fn at_clamped(&self, x: i64, y: i64) -> (r: u8)
        requires
            self.wf(),
        ensures
            r == self@.at_clamped(x as int, y as int),
    {
        let cx: usize = clamp_index(x, self.width);
        let cy: usize = clamp_index(y, self.height);
        self.at(cx, cy)
    }
}

/// The clamp of `v` to `[0, n)` as an index.
pub fn clamp_index(v: i64, n: usize) -> (r: usize)
    requires
        1 <= n <= MAX_DIM,
    ensures
        r == clamp_coord(v as int, n as int),
        r < n,
{
    if v < 0 {
        0
    } else if v >= n as i64 {
        n - 1
    } else {
        v as usize
    }
}

} // verus!
