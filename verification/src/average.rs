//! The average hash: each sample of the hash window is compared against the
//! arithmetic mean of that window.
//!
//! The mean comparison is carried out in exact integer arithmetic: a sample
//! `v` is strictly greater than the mean `sum / (hash_width * hash_height)`
//! exactly when `v * hash_width * hash_height > sum`, so no division (and no
//! rounding) takes place.

use vstd::math::min;
use vstd::prelude::*;

use crate::bit_val;
use crate::grayscale::GrayscaleImage;
use crate::preprocess::gray_of;
use crate::preprocess::lanczos3_resized_of;
use crate::preprocess::luma_seq_of;
use crate::preprocess::preprocess;
use crate::preprocess::resized_of;
use crate::preprocess::Resizer;

verus! {

/// How many of the first image rows the hash window covers.
pub open spec fn rows_taken(hash_height: int, height: int) -> int {
    min(hash_height, height)
}

/// How many of the first image columns the average hash window covers.
pub open spec fn cols_taken(hash_width: int, width: int) -> int {
    min(hash_width, width)
}

/// The sample at column `x` of row `y` of a row-major buffer of the given
/// width.
pub open spec fn px_at(pixels: Seq<u8>, width: int, x: int, y: int) -> u8 {
    pixels[y * width + x]
}

/// The sum of the first `n` samples of row `y`.
pub open spec fn row_prefix_sum(pixels: Seq<u8>, width: int, y: int, n: int) -> int
    decreases n,
{
    if n <= 0 {
        0
    } else {
        row_prefix_sum(pixels, width, y, n - 1) + px_at(pixels, width, n - 1, y)
    }
}

/// The sum of the samples in the first `rows` rows and first `cols` columns.
pub open spec fn window_sum(pixels: Seq<u8>, width: int, rows: int, cols: int) -> int
    decreases rows,
{
    if rows <= 0 {
        0
    } else {
        window_sum(pixels, width, rows - 1, cols) + row_prefix_sum(pixels, width, rows - 1, cols)
    }
}

/// Whether the sample at `(x, y)` is strictly greater than the mean of the
/// hash window (`hash_width * hash_height` is the divisor of the mean, so the
/// comparison is multiplied through by it; ties go to false).
pub open spec fn exceeds_mean(
    pixels: Seq<u8>,
    width: int,
    height: int,
    hash_width: int,
    hash_height: int,
    x: int,
    y: int,
) -> bool {
    px_at(pixels, width, x, y) * hash_width * hash_height > window_sum(
        pixels,
        width,
        rows_taken(hash_height, height),
        cols_taken(hash_width, width),
    )
}

/// The average hash bits of a row-major buffer: one boolean per window
/// sample, row-major, true when the sample is strictly greater than the
/// window mean. A pure function of the samples and the sizes.
pub open spec fn average_bits(
    pixels: Seq<u8>,
    width: int,
    height: int,
    hash_width: int,
    hash_height: int,
) -> Seq<bool> {
    Seq::new(
        (rows_taken(hash_height, height) * cols_taken(hash_width, width)) as nat,
        |i: int|
            exceeds_mean(
                pixels,
                width,
                height,
                hash_width,
                hash_height,
                i % cols_taken(hash_width, width),
                i / cols_taken(hash_width, width),
            ),
    )
}

pub proof fn lemma_row_prefix_sum_bounds(pixels: Seq<u8>, width: int, y: int, n: int)
    requires
        0 <= n,
    ensures
        0 <= row_prefix_sum(pixels, width, y, n) <= 255 * n,
    decreases n,
{
    if n > 0 {
        lemma_row_prefix_sum_bounds(pixels, width, y, n - 1);
    }
}

pub proof fn lemma_window_sum_bounds(pixels: Seq<u8>, width: int, rows: int, cols: int)
    requires
        0 <= rows,
        0 <= cols,
    ensures
        0 <= window_sum(pixels, width, rows, cols) <= 255 * rows * cols,
    decreases rows,
{
    if rows > 0 {
        lemma_window_sum_bounds(pixels, width, rows - 1, cols);
        lemma_row_prefix_sum_bounds(pixels, width, rows - 1, cols);
        assert(255 * (rows - 1) * cols + 255 * cols == 255 * rows * cols) by (nonlinear_arith);
    }
}

/// Computes the average hash of a grayscale image: the mean of the samples in
/// the window of the first `hash_height` rows and `hash_width` columns is
/// taken, and the window's samples are thresholded against it, row-major,
/// strictly-greater mapping to true.
pub fn average_hash_core(image: &GrayscaleImage, hash_width: usize, hash_height: usize) -> (r:
    crate::Hash)
    requires
        image.wf(),
        hash_width * hash_height <= usize::MAX,
    ensures
        r.bits@ == average_bits(
            image.pixel_seq(),
            image.spec_width(),
            image.spec_height(),
            hash_width as int,
            hash_height as int,
        ),
        r.bits@.len() == rows_taken(hash_height as int, image.spec_height()) * cols_taken(
            hash_width as int,
            image.spec_width(),
        ),
{
    let width = image.width();
    let height = image.height();
    let rows: usize = if hash_height < height {
        hash_height
    } else {
        height
    };
    let cols: usize = if hash_width < width {
        hash_width
    } else {
        width
    };
    let count: usize = hash_width * hash_height;

    let mut sum: u128 = 0;
    for y in 0..rows
        invariant
            image.wf(),
            rows == rows_taken(hash_height as int, image.spec_height()),
            cols == cols_taken(hash_width as int, image.spec_width()),
            rows <= image.spec_height(),
            cols <= image.spec_width(),
            sum == window_sum(image.pixel_seq(), image.spec_width(), y as int, cols as int),
            sum <= 255 * (y as int) * (cols as int),
    {
        let ghost outer = sum;
        for x in 0..cols
            invariant
                image.wf(),
                rows == rows_taken(hash_height as int, image.spec_height()),
                cols == cols_taken(hash_width as int, image.spec_width()),
                y < rows,
                rows <= image.spec_height(),
                cols <= image.spec_width(),
                outer == window_sum(image.pixel_seq(), image.spec_width(), y as int, cols as int),
                outer <= 255 * (y as int) * (cols as int),
                sum == outer + row_prefix_sum(
                    image.pixel_seq(),
                    image.spec_width(),
                    y as int,
                    x as int,
                ),
                row_prefix_sum(image.pixel_seq(), image.spec_width(), y as int, x as int) <= 255
                    * (x as int),
        {
            let v = image.pixel(x, y);
            proof {
                image.lemma_pixel_count_bound();
                assert((y as int) * (cols as int) + (x as int) + 1 <= image.spec_width()
                    * image.spec_height()) by (nonlinear_arith)
                    requires
                        0 <= (x as int) < (cols as int) <= image.spec_width(),
                        0 <= (y as int) < rows,
                        rows <= image.spec_height(),
                ;
                assert(sum + v <= 255 * ((y as int) * (cols as int) + (x as int) + 1))
                    by (nonlinear_arith)
                    requires
                        sum <= 255 * (y as int) * (cols as int) + 255 * (x as int),
                        v <= 255,
                ;
            }
            sum = sum + (v as u128);
        }
        proof {
            lemma_window_sum_bounds(
                image.pixel_seq(),
                image.spec_width(),
                y as int + 1,
                cols as int,
            );
            assert(255 * ((y as int) + 1) * (cols as int) == 255 * (y as int) * (cols as int)
                + 255 * (cols as int)) by (nonlinear_arith);
        }
    }

    let ghost spec_bits = average_bits(
        image.pixel_seq(),
        image.spec_width(),
        image.spec_height(),
        hash_width as int,
        hash_height as int,
    );
    proof {
        assert(0 <= (rows as int) * (cols as int)) by (nonlinear_arith)
            requires
                0 <= (rows as int),
                0 <= (cols as int),
        ;
        assert(spec_bits.len() == (rows as int) * (cols as int));
    }
    let mut bits: Vec<bool> = Vec::new();
    proof {
        assert(bits@ =~= spec_bits.subrange(0, 0 * (cols as int)));
    }
    for y in 0..rows
        invariant
            image.wf(),
            rows == rows_taken(hash_height as int, image.spec_height()),
            cols == cols_taken(hash_width as int, image.spec_width()),
            rows <= image.spec_height(),
            cols <= image.spec_width(),
            count == hash_width * hash_height,
            sum == window_sum(image.pixel_seq(), image.spec_width(), rows as int, cols as int),
            spec_bits == average_bits(
                image.pixel_seq(),
                image.spec_width(),
                image.spec_height(),
                hash_width as int,
                hash_height as int,
            ),
            spec_bits.len() == (rows as int) * (cols as int),
            bits@.len() == y * cols,
            bits@ == spec_bits.subrange(0, (y as int) * (cols as int)),
    {
        proof {
            assert((y as int) * (cols as int) + cols <= (rows as int) * (cols as int))
                by (nonlinear_arith)
                requires
                    0 <= (y as int) < (rows as int),
                    0 <= (cols as int),
            ;
        }
        for x in 0..cols
            invariant
                image.wf(),
                rows == rows_taken(hash_height as int, image.spec_height()),
                cols == cols_taken(hash_width as int, image.spec_width()),
                y < rows,
                rows <= image.spec_height(),
                cols <= image.spec_width(),
                count == hash_width * hash_height,
                sum == window_sum(image.pixel_seq(), image.spec_width(), rows as int, cols as int),
                spec_bits == average_bits(
                    image.pixel_seq(),
                    image.spec_width(),
                    image.spec_height(),
                    hash_width as int,
                    hash_height as int,
                ),
                spec_bits.len() == (rows as int) * (cols as int),
                (y as int) * (cols as int) + cols <= (rows as int) * (cols as int),
                bits@.len() == y * cols + x,
                bits@ == spec_bits.subrange(0, (y as int) * (cols as int) + (x as int)),
        {
            let v = image.pixel(x, y);
            proof {
                assert((v as int) * (count as int) <= 255 * 0xffff_ffff_ffff_ffffint)
                    by (nonlinear_arith)
                    requires
                        0 <= (v as int) <= 255,
                        0 <= (count as int) <= 0xffff_ffff_ffff_ffffint,
                ;
            }
            let lhs: u128 = (v as u128) * (count as u128);
            let bit = lhs > sum;
            proof {
                let i = (y as int) * (cols as int) + (x as int);
                assert(i / (cols as int) == y as int && i % (cols as int) == x as int)
                    by (nonlinear_arith)
                    requires
                        0 <= (x as int) < (cols as int),
                        0 <= (y as int),
                        i == (y as int) * (cols as int) + (x as int),
                ;
                assert((v as int) * ((hash_width as int) * (hash_height as int)) == (v as int) * (
                hash_width as int) * (hash_height as int)) by (nonlinear_arith);
                assert(bit == exceeds_mean(
                    image.pixel_seq(),
                    image.spec_width(),
                    image.spec_height(),
                    hash_width as int,
                    hash_height as int,
                    x as int,
                    y as int,
                ));
                assert(spec_bits[i] == bit);
            }
            bits.push(bit);
            proof {
                assert(bits@ =~= spec_bits.subrange(
                    0,
                    (y as int) * (cols as int) + (x as int) + 1,
                ));
            }
        }
        proof {
            assert(((y as int) + 1) * (cols as int) == (y as int) * (cols as int) + (
            cols as int)) by (nonlinear_arith);
        }
    }
    proof {
        assert(bits@ =~= spec_bits);
    }
    (crate::Hash { bits })
}

/// Provides average hash (aHash) calculation.
pub struct AverageHash {
    image_size: (usize, usize),
    hash_size: (usize, usize),
    resizer: Resizer,
}

impl AverageHash {
    /// The resample target size (width, height) of this configuration.
    pub closed spec fn spec_image_size(&self) -> (int, int) {
        (self.image_size.0 as int, self.image_size.1 as int)
    }

    /// The hash grid size (width, height) of this configuration.
    pub closed spec fn spec_hash_size(&self) -> (int, int) {
        (self.hash_size.0 as int, self.hash_size.1 as int)
    }

    /// The resampling strategy of this configuration.
    pub closed spec fn spec_resizer(&self) -> Resizer {
        self.resizer
    }

    /// The average hash bits that `hash` owes for a given source image: the
    /// bits of the luminance samples of the configured resampling of the
    /// grayscale rendering of the image.
    pub open spec fn hash_bits_of(&self, img: image::DynamicImage) -> Seq<bool> {
        average_bits(
            luma_seq_of(self.resized_spec(img)),
            self.spec_image_size().0,
            self.spec_image_size().1,
            self.spec_hash_size().0,
            self.spec_hash_size().1,
        )
    }

    /// The resampled image that this configuration's preprocessing produces.
    pub open spec fn resized_spec(&self, img: image::DynamicImage) -> image::DynamicImage {
        match self.spec_resizer() {
            Resizer::Lanczos3 => lanczos3_resized_of(
                gray_of(img),
                self.spec_image_size().0,
                self.spec_image_size().1,
            ),
            Resizer::Filter(filter) => resized_of(
                gray_of(img),
                self.spec_image_size().0,
                self.spec_image_size().1,
                filter,
            ),
        }
    }

    /// The machine limits under which `hash` can run: the resample target
    /// must fit the image crate's 32-bit dimensions, and the mean divisor
    /// `hash_width * hash_height` must fit `usize`.
    pub open spec fn valid_config(&self) -> bool {
        self.spec_image_size().0 <= u32::MAX && self.spec_image_size().1 <= u32::MAX
            && self.spec_hash_size().0 * self.spec_hash_size().1 <= usize::MAX
    }

    /// Creates a new `AverageHash` hasher with default parameters.
    pub fn new() -> (r: Self)
        ensures
            r.spec_image_size() == (8int, 8int),
            r.spec_hash_size() == (8int, 8int),
            r.spec_resizer() is Lanczos3,
            r.valid_config(),
    {
        AverageHash::default()
    }

    /// Constructs a hasher with the image size.
    pub fn with_image_size(self, width: usize, height: usize) -> (r: Self)
        ensures
            r.spec_image_size() == (width as int, height as int),
            r.spec_hash_size() == self.spec_hash_size(),
            r.spec_resizer() == self.spec_resizer(),
    {
        AverageHash { image_size: (width, height), ..self }
    }

    /// Constructs a hasher with the hash size.
    pub fn with_hash_size(self, width: usize, height: usize) -> (r: Self)
        ensures
            r.spec_hash_size() == (width as int, height as int),
            r.spec_image_size() == self.spec_image_size(),
            r.spec_resizer() == self.spec_resizer(),
    {
        AverageHash { hash_size: (width, height), ..self }
    }

    /// Constructs a hasher with the resampling strategy.
    pub fn with_resizer(self, resizer: Resizer) -> (r: Self)
        ensures
            r.spec_resizer() == resizer,
            r.spec_image_size() == self.spec_image_size(),
            r.spec_hash_size() == self.spec_hash_size(),
    {
        AverageHash { resizer, ..self }
    }

    /// Calculates the average hash (aHash) of the image: the image is
    /// grayscaled and resampled to `image_size`, and the samples of the hash
    /// window are thresholded against the window mean. The bits are a
    /// function of the image and this configuration alone.
    pub fn hash(&self, image: &image::DynamicImage) -> (r: crate::Hash)
        requires
            self.valid_config(),
        ensures
            r.bits@ == self.hash_bits_of(*image),
            r.bits@.len() == rows_taken(self.spec_hash_size().1, self.spec_image_size().1)
                * cols_taken(self.spec_hash_size().0, self.spec_image_size().0),
    {
        let g = preprocess(image, &self.resizer, self.image_size.0, self.image_size.1);
        average_hash_core(&g, self.hash_size.0, self.hash_size.1)
    }
}

impl Default for AverageHash {
    /// Creates a hasher with the default parameters: an 8x8 resample target,
    /// an 8x8 hash grid, and Lanczos3 resampling.
    fn default() -> (r: Self)
        ensures
            r.spec_image_size() == (8int, 8int),
            r.spec_hash_size() == (8int, 8int),
            r.spec_resizer() is Lanczos3,
            r.valid_config(),
    {
        AverageHash { image_size: (8, 8), hash_size: (8, 8), resizer: Resizer::Lanczos3 }
    }
}

/// Calculates the average hash (aHash) of the image with the default
/// configuration (8x8 resample target, 8x8 hash grid): a 64-bit hash whose
/// bits are a function of the image alone.
pub fn average_hash(image: &image::DynamicImage) -> (r: crate::Hash)
    ensures
        r.bits@.len() == 64,
        r.bits@ == average_bits(
            luma_seq_of(lanczos3_resized_of(gray_of(*image), 8, 8)),
            8,
            8,
            8,
            8,
        ),
{
    let hasher = AverageHash::new();
    hasher.hash(image)
}

/// Law of determinism: the average hash bits are a function of the samples
/// and the sizes alone, so two computations on the same inputs (each equal
/// to `average_bits`, as the contracts ensure) yield identical bit
/// sequences.
pub proof fn lemma_average_hash_deterministic(
    pixels: Seq<u8>,
    width: int,
    height: int,
    hash_width: int,
    hash_height: int,
    first: Seq<bool>,
    second: Seq<bool>,
)
    requires
        first == average_bits(pixels, width, height, hash_width, hash_height),
        second == average_bits(pixels, width, height, hash_width, hash_height),
    ensures
        first == second,
{
}

/// Law of fixed length: whenever the resample target provides at least
/// `hash_width` columns and `hash_height` rows, the average hash has exactly
/// `hash_width * hash_height` bits.
pub proof fn lemma_average_hash_length(
    pixels: Seq<u8>,
    width: int,
    height: int,
    hash_width: int,
    hash_height: int,
)
    requires
        0 <= hash_width <= width,
        0 <= hash_height <= height,
    ensures
        average_bits(pixels, width, height, hash_width, hash_height).len() == hash_width
            * hash_height,
{
    assert(rows_taken(hash_height, height) == hash_height);
    assert(cols_taken(hash_width, width) == hash_width);
    assert(0 <= hash_height * hash_width && hash_height * hash_width == hash_width * hash_height)
        by (nonlinear_arith)
        requires
            0 <= hash_width,
            0 <= hash_height,
    ;
}

/// The number of true values among the first `n` entries of a bit sequence.
pub open spec fn count_true(s: Seq<bool>, n: int) -> int
    decreases n,
{
    if n <= 0 {
        0
    } else {
        count_true(s, n - 1) + bit_val(s, n - 1)
    }
}

/// The number of positions among the first `n` window positions (row-major)
/// whose sample is strictly greater than the window mean.
pub open spec fn count_exceeding(
    pixels: Seq<u8>,
    width: int,
    height: int,
    hash_width: int,
    hash_height: int,
    n: int,
) -> int
    decreases n,
{
    if n <= 0 {
        0
    } else {
        count_exceeding(pixels, width, height, hash_width, hash_height, n - 1) + if exceeds_mean(
            pixels,
            width,
            height,
            hash_width,
            hash_height,
            (n - 1) % cols_taken(hash_width, width),
            (n - 1) / cols_taken(hash_width, width),
        ) {
            1int
        } else {
            0int
        }
    }
}

proof fn lemma_count_true_matches(
    pixels: Seq<u8>,
    width: int,
    height: int,
    hash_width: int,
    hash_height: int,
    n: int,
)
    requires
        0 <= n <= average_bits(pixels, width, height, hash_width, hash_height).len(),
    ensures
        count_true(average_bits(pixels, width, height, hash_width, hash_height), n)
            == count_exceeding(pixels, width, height, hash_width, hash_height, n),
    decreases n,
{
    if n > 0 {
        lemma_count_true_matches(pixels, width, height, hash_width, hash_height, n - 1);
    }
}

/// Law of threshold consistency: the number of true bits in the average hash
/// equals the number of window samples strictly greater than the floating
/// window mean (stated here, equivalently, as the exact comparison
/// `sample * hash_width * hash_height > window sum`).
pub proof fn lemma_threshold_consistency(
    pixels: Seq<u8>,
    width: int,
    height: int,
    hash_width: int,
    hash_height: int,
)
    ensures
        count_true(
            average_bits(pixels, width, height, hash_width, hash_height),
            average_bits(pixels, width, height, hash_width, hash_height).len() as int,
        ) == count_exceeding(
            pixels,
            width,
            height,
            hash_width,
            hash_height,
            average_bits(pixels, width, height, hash_width, hash_height).len() as int,
        ),
{
    lemma_count_true_matches(
        pixels,
        width,
        height,
        hash_width,
        hash_height,
        average_bits(pixels, width, height, hash_width, hash_height).len() as int,
    );
}

} // verus!
