//! The grayscale image buffer: a flat, row-major grid of 8-bit intensity
//! samples, the input of every hashing algorithm.

use vstd::prelude::*;

verus! {

/// A rectangular grid of single-byte intensity samples, stored row-major in a
/// flat vector of length `width * height`.
pub struct GrayscaleImage {
    pixels: Vec<u8>,
    width: usize,
    height: usize,
}

impl GrayscaleImage {
    /// The flat, row-major sequence of samples.
    pub closed spec fn pixel_seq(&self) -> Seq<u8> {
        self.pixels@
    }

    /// The width of the grid, in samples.
    pub closed spec fn spec_width(&self) -> int {
        self.width as int
    }

    /// The height of the grid, in samples.
    pub closed spec fn spec_height(&self) -> int {
        self.height as int
    }

    /// Structural invariant: the flat buffer holds exactly one sample per
    /// grid position.
    pub open spec fn wf(&self) -> bool {
        self.pixel_seq().len() == self.spec_width() * self.spec_height()
    }

    /// The sample at column `x` of row `y`.
    pub open spec fn px(&self, x: int, y: int) -> u8 {
        self.pixel_seq()[y * self.spec_width() + x]
    }

    /// The samples of row `y`, in column order.
    pub open spec fn row_seq(&self, y: int) -> Seq<u8> {
        self.pixel_seq().subrange(y * self.spec_width(), y * self.spec_width() + self.spec_width())
    }

    /// The flat buffer is a vector, so the sample count fits in `usize`.
    pub proof fn lemma_pixel_count_bound(&self)
        ensures
            self.pixel_seq().len() <= usize::MAX,
    {
        assert(self.pixels.len() == self.pixel_seq().len());
    }

    /// Creates a new `GrayscaleImage` from the flattened pixels.
    pub fn new(pixels: Vec<u8>, width: usize, height: usize) -> (r: Self)
        requires
            pixels@.len() == width * height,
        ensures
            r.pixel_seq() == pixels@,
            r.spec_width() == width,
            r.spec_height() == height,
            r.wf(),
    {
        GrayscaleImage { pixels, width, height }
    }

    /// The width of the grid, in samples.
    pub fn width(&self) -> (r: usize)
        ensures
            r == self.spec_width(),
    {
        self.width
    }

    /// The height of the grid, in samples.
    pub fn height(&self) -> (r: usize)
        ensures
            r == self.spec_height(),
    {
        self.height
    }

    /// The sample at column `x` of row `y`.
    pub fn pixel(&self, x: usize, y: usize) -> (r: u8)
        requires
            self.wf(),
            x < self.spec_width(),
            y < self.spec_height(),
        ensures
            r == self.px(x as int, y as int),
    {
        proof {
            assert(self.pixels.len() == self.pixel_seq().len());
            lemma_row_major_index_bounds(self.spec_width(), self.spec_height(), x as int, y as int);
        }
        self.pixels[y * self.width + x]
    }

    /// Returns the pixels as a flat vector, in row-major order.
    pub fn iter_pixels_as(&self) -> (r: Vec<u8>)
        ensures
            r@ == self.pixel_seq(),
    {
        let mut out: Vec<u8> = Vec::new();
        let n = self.pixels.len();
        for i in 0..n
            invariant
                n == self.pixel_seq().len(),
                out@ == self.pixel_seq().subrange(0, i as int),
        {
            out.push(self.pixels[i]);
            proof {
                assert(out@ =~= self.pixel_seq().subrange(0, i + 1));
            }
        }
        proof {
            assert(out@ =~= self.pixel_seq());
        }
        out
    }

    /// Returns the rows as vectors of samples, in top-to-bottom order.
    pub fn iter_rows_as(&self) -> (r: Vec<Vec<u8>>)
        requires
            self.wf(),
        ensures
            r@.len() == self.spec_height(),
            forall|y: int| 0 <= y < self.spec_height() ==> #[trigger] r@[y]@ == self.row_seq(y),
    {
        let mut rows: Vec<Vec<u8>> = Vec::new();
        let h = self.height;
        for y in 0..h
            invariant
                self.wf(),
                h == self.spec_height(),
                rows@.len() == y,
                forall|k: int| 0 <= k < y ==> #[trigger] rows@[k]@ == self.row_seq(k),
        {
            let mut row: Vec<u8> = Vec::new();
            let w = self.width;
            proof {
                assert(self.pixels.len() == self.pixel_seq().len());
                lemma_row_start_bounds(self.spec_width(), self.spec_height(), y as int);
            }
            let base = y * w;
            for x in 0..w
                invariant
                    self.wf(),
                    w == self.spec_width(),
                    y < self.spec_height(),
                    base == y * self.spec_width(),
                    base + w <= self.pixels.len(),
                    row@ == self.pixel_seq().subrange(base as int, base + x),
            {
                row.push(self.pixels[base + x]);
                proof {
                    assert(row@ =~= self.pixel_seq().subrange(base as int, base + x + 1));
                }
            }
            rows.push(row);
        }
        rows
    }
}

/// A sample index `y * width + x` with `x < width`, `y < height` lies inside
/// the flat buffer of a well-formed grid.
pub proof fn lemma_row_major_index_bounds(width: int, height: int, x: int, y: int)
    requires
        0 <= x < width,
        0 <= y < height,
    ensures
        0 <= y * width,
        y * width + x < width * height,
{
    assert(y * width + x < width * height) by (nonlinear_arith)
        requires
            0 <= x < width,
            0 <= y < height,
    ;
    assert(0 <= y * width) by (nonlinear_arith)
        requires
            0 <= y,
            0 < width,
    ;
}

/// A whole row `y < height` lies inside the flat buffer of a well-formed grid.
pub proof fn lemma_row_start_bounds(width: int, height: int, y: int)
    requires
        0 <= y < height,
        0 <= width,
    ensures
        0 <= y * width,
        y * width + width <= width * height,
{
    assert(0 <= y * width) by (nonlinear_arith)
        requires
            0 <= y,
            0 <= width,
    ;
    assert(y * width + width <= width * height) by (nonlinear_arith)
        requires
            0 <= y < height,
            0 <= width,
    ;
}

} // verus!
