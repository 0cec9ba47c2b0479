//! The difference hash: each bit records whether a sample is strictly
//! brighter than its left neighbour, so the hash captures horizontal
//! intensity gradients.

use vstd::math::min;
use vstd::prelude::*;

use crate::average::px_at;
use crate::average::rows_taken;
use crate::grayscale::GrayscaleImage;
use crate::preprocess::gray_of;
use crate::preprocess::lanczos3_resized_of;
use crate::preprocess::luma_seq_of;
use crate::preprocess::preprocess;
use crate::preprocess::resized_of;
use crate::preprocess::Resizer;

verus! {

/// How many gradient bits a row of `width` samples yields: one per adjacent
/// pair of samples, capped at `hash_width`. A row of `width` samples has
/// `width - 1` adjacent pairs (none when the row is empty).
pub open spec fn gradient_cols_for(width: int, hash_width: int) -> int {
    if width < 1 {
        0
    } else {
        min(hash_width, width - 1)
    }
}

/// Whether the sample right of `(x, y)` is strictly brighter than `(x, y)`.
pub open spec fn gradient_at(pixels: Seq<u8>, width: int, x: int, y: int) -> bool {
    px_at(pixels, width, x + 1, y) > px_at(pixels, width, x, y)
}

/// The difference hash bits of a row-major buffer: for each of the first
/// `hash_height` rows, the horizontal gradients of the first `hash_width`
/// adjacent pairs, row-major. A pure function of the samples and the sizes.
pub open spec fn difference_bits(
    pixels: Seq<u8>,
    width: int,
    height: int,
    hash_width: int,
    hash_height: int,
) -> Seq<bool> {
    Seq::new(
        (rows_taken(hash_height, height) * gradient_cols_for(width, hash_width)) as nat,
        |i: int|
            gradient_at(
                pixels,
                width,
                i % gradient_cols_for(width, hash_width),
                i / gradient_cols_for(width, hash_width),
            ),
    )
}

/// Computes the difference hash of a grayscale image: bit `(x, y)` of the
/// hash grid is true exactly when the sample at `(x + 1, y)` is strictly
/// greater than the sample at `(x, y)`. A configuration whose `hash_width`
/// exceeds the available `width - 1` gradient columns yields the shorter,
/// deterministically truncated row (the caller may reject such
/// configurations up front by comparing the stated lengths).
pub fn difference_hash_core(image: &GrayscaleImage, hash_width: usize, hash_height: usize) -> (r:
    crate::Hash)
    requires
        image.wf(),
    ensures
        r.bits@ == difference_bits(
            image.pixel_seq(),
            image.spec_width(),
            image.spec_height(),
            hash_width as int,
            hash_height as int,
        ),
        r.bits@.len() == rows_taken(hash_height as int, image.spec_height()) * gradient_cols_for(
            image.spec_width(),
            hash_width as int,
        ),
{
    let width = image.width();
    let height = image.height();
    let rows: usize = if hash_height < height {
        hash_height
    } else {
        height
    };
    let pairs: usize = if width < 1 {
        0
    } else {
        width - 1
    };
    let cols: usize = if hash_width < pairs {
        hash_width
    } else {
        pairs
    };

    let ghost spec_bits = difference_bits(
        image.pixel_seq(),
        image.spec_width(),
        image.spec_height(),
        hash_width as int,
        hash_height as int,
    );
    proof {
        assert(0 <= (rows as int) * (cols as int)) by (nonlinear_arith)
            requires
                0 <= (rows as int),
                0 <= (cols as int),
        ;
        assert(spec_bits.len() == (rows as int) * (cols as int));
    }
    let mut bits: Vec<bool> = Vec::new();
    proof {
        assert(bits@ =~= spec_bits.subrange(0, 0 * (cols as int)));
    }
    for y in 0..rows
        invariant
            image.wf(),
            rows == rows_taken(hash_height as int, image.spec_height()),
            cols == gradient_cols_for(image.spec_width(), hash_width as int),
            rows <= image.spec_height(),
            cols + 1 <= image.spec_width() || cols == 0,
            spec_bits == difference_bits(
                image.pixel_seq(),
                image.spec_width(),
                image.spec_height(),
                hash_width as int,
                hash_height as int,
            ),
            spec_bits.len() == (rows as int) * (cols as int),
            bits@.len() == y * cols,
            bits@ == spec_bits.subrange(0, (y as int) * (cols as int)),
    {
        proof {
            assert((y as int) * (cols as int) + cols <= (rows as int) * (cols as int))
                by (nonlinear_arith)
                requires
                    0 <= (y as int) < (rows as int),
                    0 <= (cols as int),
            ;
        }
        for x in 0..cols
            invariant
                image.wf(),
                rows == rows_taken(hash_height as int, image.spec_height()),
                cols == gradient_cols_for(image.spec_width(), hash_width as int),
                y < rows,
                rows <= image.spec_height(),
                cols == 0 || cols + 1 <= image.spec_width(),
                spec_bits == difference_bits(
                    image.pixel_seq(),
                    image.spec_width(),
                    image.spec_height(),
                    hash_width as int,
                    hash_height as int,
                ),
                spec_bits.len() == (rows as int) * (cols as int),
                (y as int) * (cols as int) + cols <= (rows as int) * (cols as int),
                bits@.len() == y * cols + x,
                bits@ == spec_bits.subrange(0, (y as int) * (cols as int) + (x as int)),
        {
            let left = image.pixel(x, y);
            let right = image.pixel(x + 1, y);
            let bit = right > left;
            proof {
                let i = (y as int) * (cols as int) + (x as int);
                assert(i / (cols as int) == y as int && i % (cols as int) == x as int)
                    by (nonlinear_arith)
                    requires
                        0 <= (x as int) < (cols as int),
                        0 <= (y as int),
                        i == (y as int) * (cols as int) + (x as int),
                ;
                assert(bit == gradient_at(
                    image.pixel_seq(),
                    image.spec_width(),
                    x as int,
                    y as int,
                ));
                assert(spec_bits[i] == bit);
            }
            bits.push(bit);
            proof {
                assert(bits@ =~= spec_bits.subrange(
                    0,
                    (y as int) * (cols as int) + (x as int) + 1,
                ));
            }
        }
        proof {
            assert(((y as int) + 1) * (cols as int) == (y as int) * (cols as int) + (
            cols as int)) by (nonlinear_arith);
        }
    }
    proof {
        assert(bits@ =~= spec_bits);
    }
    (crate::Hash { bits })
}

/// Law of determinism: the difference hash bits are a function of the
/// samples and the sizes alone, so two computations on the same inputs
/// (each equal to `difference_bits`, as the contracts ensure) yield
/// identical bit sequences.
pub proof fn lemma_difference_hash_deterministic(
    pixels: Seq<u8>,
    width: int,
    height: int,
    hash_width: int,
    hash_height: int,
    first: Seq<bool>,
    second: Seq<bool>,
)
    requires
        first == difference_bits(pixels, width, height, hash_width, hash_height),
        second == difference_bits(pixels, width, height, hash_width, hash_height),
    ensures
        first == second,
{
}

/// Law of fixed length: whenever the resample target provides at least
/// `hash_width + 1` columns (one spare for the gradients) and `hash_height`
/// rows, the difference hash has exactly `hash_width * hash_height` bits.
pub proof fn lemma_difference_hash_length(
    pixels: Seq<u8>,
    width: int,
    height: int,
    hash_width: int,
    hash_height: int,
)
    requires
        0 <= hash_width,
        width >= hash_width + 1,
        0 <= hash_height <= height,
    ensures
        difference_bits(pixels, width, height, hash_width, hash_height).len() == hash_width
            * hash_height,
{
    assert(rows_taken(hash_height, height) == hash_height);
    assert(gradient_cols_for(width, hash_width) == hash_width);
    assert(0 <= hash_height * hash_width && hash_height * hash_width == hash_width * hash_height)
        by (nonlinear_arith)
        requires
            0 <= hash_width,
            0 <= hash_height,
    ;
}

/// Provides difference hash (dHash) calculation.
pub struct DifferenceHash {
    image_size: (usize, usize),
    hash_size: (usize, usize),
    resizer: Resizer,
}

impl DifferenceHash {
    /// The resample target size (width, height) of this configuration.
    pub closed spec fn spec_image_size(&self) -> (int, int) {
        (self.image_size.0 as int, self.image_size.1 as int)
    }

    /// The hash grid size (width, height) of this configuration.
    pub closed spec fn spec_hash_size(&self) -> (int, int) {
        (self.hash_size.0 as int, self.hash_size.1 as int)
    }

    /// The resampling strategy of this configuration.
    pub closed spec fn spec_resizer(&self) -> Resizer {
        self.resizer
    }

    /// The difference hash bits that `hash` owes for a given source image:
    /// the bits of the luminance samples of the configured resampling of the
    /// grayscale rendering of the image.
    pub open spec fn hash_bits_of(&self, img: image::DynamicImage) -> Seq<bool> {
        difference_bits(
            luma_seq_of(self.resized_spec(img)),
            self.spec_image_size().0,
            self.spec_image_size().1,
            self.spec_hash_size().0,
            self.spec_hash_size().1,
        )
    }

    /// The resampled image that this configuration's preprocessing produces.
    pub open spec fn resized_spec(&self, img: image::DynamicImage) -> image::DynamicImage {
        match self.spec_resizer() {
            Resizer::Lanczos3 => lanczos3_resized_of(
                gray_of(img),
                self.spec_image_size().0,
                self.spec_image_size().1,
            ),
            Resizer::Filter(filter) => resized_of(
                gray_of(img),
                self.spec_image_size().0,
                self.spec_image_size().1,
                filter,
            ),
        }
    }

    /// The machine limit under which `hash` can run: the resample target
    /// must fit the image crate's 32-bit dimensions.
    pub open spec fn valid_config(&self) -> bool {
        self.spec_image_size().0 <= u32::MAX && self.spec_image_size().1 <= u32::MAX
    }

    /// Creates a new `DifferenceHash` hasher with default parameters.
    pub fn new() -> (r: Self)
        ensures
            r.spec_image_size() == (9int, 8int),
            r.spec_hash_size() == (8int, 8int),
            r.spec_resizer() is Lanczos3,
            r.valid_config(),
    {
        DifferenceHash::default()
    }

    /// Constructs a hasher with the image size.
    pub fn with_image_size(self, width: usize, height: usize) -> (r: Self)
        ensures
            r.spec_image_size() == (width as int, height as int),
            r.spec_hash_size() == self.spec_hash_size(),
            r.spec_resizer() == self.spec_resizer(),
    {
        DifferenceHash { image_size: (width, height), ..self }
    }

    /// Constructs a hasher with the hash size.
    pub fn with_hash_size(self, width: usize, height: usize) -> (r: Self)
        ensures
            r.spec_hash_size() == (width as int, height as int),
            r.spec_image_size() == self.spec_image_size(),
            r.spec_resizer() == self.spec_resizer(),
    {
        DifferenceHash { hash_size: (width, height), ..self }
    }

    /// Constructs a hasher with the resampling strategy.
    pub fn with_resizer(self, resizer: Resizer) -> (r: Self)
        ensures
            r.spec_resizer() == resizer,
            r.spec_image_size() == self.spec_image_size(),
            r.spec_hash_size() == self.spec_hash_size(),
    {
        DifferenceHash { resizer, ..self }
    }

    /// Calculates the difference hash (dHash) of the image: the image is
    /// grayscaled and resampled to `image_size`, and each hash bit records
    /// whether a sample is strictly brighter than its left neighbour. The
    /// bits are a function of the image and this configuration alone.
    pub fn hash(&self, image: &image::DynamicImage) -> (r: crate::Hash)
        requires
            self.valid_config(),
        ensures
            r.bits@ == self.hash_bits_of(*image),
            r.bits@.len() == rows_taken(self.spec_hash_size().1, self.spec_image_size().1)
                * gradient_cols_for(self.spec_image_size().0, self.spec_hash_size().0),
    {
        let g = preprocess(image, &self.resizer, self.image_size.0, self.image_size.1);
        difference_hash_core(&g, self.hash_size.0, self.hash_size.1)
    }
}

impl Default for DifferenceHash {
    /// Creates a hasher with the default parameters: a 9x8 resample target
    /// (one spare column for the horizontal gradients), an 8x8 hash grid,
    /// and Lanczos3 resampling.
    fn default() -> (r: Self)
        ensures
            r.spec_image_size() == (9int, 8int),
            r.spec_hash_size() == (8int, 8int),
            r.spec_resizer() is Lanczos3,
            r.valid_config(),
    {
        DifferenceHash { image_size: (9, 8), hash_size: (8, 8), resizer: Resizer::Lanczos3 }
    }
}

/// Calculates the difference hash (dHash) of the image with the default
/// configuration (9x8 resample target, 8x8 hash grid): a 64-bit hash whose
/// bits are a function of the image alone.
pub fn difference_hash(image: &image::DynamicImage) -> (r: crate::Hash)
    ensures
        r.bits@.len() == 64,
        r.bits@ == difference_bits(
            luma_seq_of(lanczos3_resized_of(gray_of(*image), 9, 8)),
            9,
            8,
            8,
            8,
        ),
{
    let hasher = DifferenceHash::new();
    hasher.hash(image)
}

} // verus!
