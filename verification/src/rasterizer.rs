//! The rasterizer's data model: a glyph's luminance bitmap and its metrics.
//!
//! Rasterization itself turns a vector outline into these luminance values
//! through floating-point coverage sampling, so it happens outside the
//! library; what arrives here is the finished grid of bytes, validated
//! against its metrics and consumed by the render strategies.

use crate::grid::Grid;
use vstd::prelude::*;

verus! {

/// A glyph's bounding box in pixels.
#[derive(Clone, Copy, PartialEq, Eq, Structural, Debug)]
pub struct Metrics {
    pub left: usize,
    pub top: usize,
    pub height: usize,
    pub width: usize,
}

/// Why no bitmap could be produced for a selection.
#[derive(Clone, Copy, PartialEq, Eq, Structural, Debug)]
pub enum RasterError {
    /// The face's binary data could not be parsed, or the face index is out
    /// of range.
    ParseFailed,
    /// The face has no outline for the requested glyph id.
    NoGlyph,
    /// The face's binary data could not be read at all.
    ReadFailed,
}

/// A dense grid of 8-bit luminance values, `metrics.height` rows by
/// `metrics.width` columns.
pub struct Bitmap {
    pub metrics: Metrics,
    pub pixels: Grid<u8>,
}

impl Bitmap {
    /// The pixel grid has exactly the dimensions the metrics claim.
    pub open spec fn wf(self) -> bool {
        &&& self.pixels.wf()
        &&& self.pixels.spec_rows() == self.metrics.height
        &&& self.pixels.spec_cols() == self.metrics.width
    }

    pub open spec fn spec_height(self) -> int {
        self.metrics.height as int
    }

    pub open spec fn spec_width(self) -> int {
        self.metrics.width as int
    }

    /// The luminance of the pixel in row `r`, column `c`.
    pub open spec fn spec_pixel(self, r: int, c: int) -> u8 {
        self.pixels.spec_at(r, c)
    }

    /// Wrap a flat row-major luminance vector together with its metrics.
    pub fn new(metrics: Metrics, cells: Vec<u8>) -> (bm: Bitmap)
        requires
            cells@.len() == metrics.height * metrics.width,
            metrics.height * metrics.width <= usize::MAX,
        ensures
            bm.wf(),
            bm.metrics == metrics,
            forall|r: int, c: int|
                0 <= r < metrics.height && 0 <= c < metrics.width ==> bm.spec_pixel(r, c)
                    == cells@[r * metrics.width + c],
    {
        let pixels = Grid::from_flat(metrics.height, metrics.width, cells);
        Bitmap { metrics, pixels }
    }

    pub fn metrics(&self) -> (m: &Metrics)
        ensures
            *m == self.metrics,
    {
        &self.metrics
    }

    pub fn pixel(&self, r: usize, c: usize) -> (v: u8)
        requires
            self.wf(),
            r < self.spec_height(),
            c < self.spec_width(),
        ensures
            v == self.spec_pixel(r as int, c as int),
    {
        *self.pixels.get(r, c)
    }
}

} // verus!
