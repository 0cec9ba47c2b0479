//! Tests of the hash cores on grayscale buffers with known samples.

use imagehash::average_hash_core;
use imagehash::difference_hash_core;
use imagehash::GrayscaleImage;

fn hamming(a: &[bool], b: &[bool]) -> usize {
    assert_eq!(a.len(), b.len());
    a.iter().zip(b.iter()).filter(|(x, y)| x != y).count()
}

#[test]
fn average_known_two_by_two() {
    // Sum is 10, divisor 4: a sample is set when 4 * v > 10.
    let img = GrayscaleImage::new(vec![1, 2, 3, 4], 2, 2);
    let hash = average_hash_core(&img, 2, 2);
    assert_eq!(hash.bits, vec![false, false, true, true]);
}

#[test]
fn average_ties_go_to_false() {
    let img = GrayscaleImage::new(vec![7, 7, 7, 7], 2, 2);
    let hash = average_hash_core(&img, 2, 2);
    assert_eq!(hash.bits, vec![false, false, false, false]);
}

#[test]
fn average_mean_window_is_restricted() {
    // A 4x4 buffer hashed at 2x2: only the top-left 2x2 window feeds the
    // mean, and only that window yields bits, whatever the bright samples
    // elsewhere hold.
    let pixels = vec![
        10, 0, 255, 255, 0, 10, 255, 255, 255, 255, 255, 255, 255, 255, 255, 255,
    ];
    let img = GrayscaleImage::new(pixels, 4, 4);
    let hash = average_hash_core(&img, 2, 2);
    assert_eq!(hash.bits, vec![true, false, false, true]);
}

#[test]
fn average_default_grid_is_64_bits() {
    let img = GrayscaleImage::new((0u8..64).collect(), 8, 8);
    let hash = average_hash_core(&img, 8, 8);
    assert_eq!(hash.bits.len(), 64);
}

#[test]
fn average_is_deterministic() {
    let pixels: Vec<u8> = (0..64).map(|i| (i * 37 % 256) as u8).collect();
    let a = average_hash_core(&GrayscaleImage::new(pixels.clone(), 8, 8), 8, 8);
    let b = average_hash_core(&GrayscaleImage::new(pixels, 8, 8), 8, 8);
    assert_eq!(a.bits, b.bits);
}

#[test]
fn average_threshold_matches_floating_mean() {
    // The count of set bits equals the count of window samples strictly
    // greater than the floating-point mean of the window.
    let pixels: Vec<u8> = (0..64).map(|i| (i * 97 % 251) as u8).collect();
    let img = GrayscaleImage::new(pixels.clone(), 8, 8);
    let hash = average_hash_core(&img, 8, 8);
    let sum: u32 = pixels.iter().map(|&v| v as u32).sum();
    let mean = sum as f64 / 64.0;
    let above = pixels.iter().filter(|&&v| v as f64 > mean).count();
    let set = hash.bits.iter().filter(|&&b| b).count();
    assert_eq!(set, above);
}

#[test]
fn difference_known_three_by_two() {
    let img = GrayscaleImage::new(vec![1, 2, 0, 5, 4, 6], 3, 2);
    let hash = difference_hash_core(&img, 2, 2);
    assert_eq!(hash.bits, vec![true, false, false, true]);
}

#[test]
fn difference_narrow_rows_truncate() {
    // Two columns leave a single adjacent pair per row, however wide the
    // requested hash grid is.
    let img = GrayscaleImage::new(vec![1, 2, 4, 3], 2, 2);
    let hash = difference_hash_core(&img, 8, 2);
    assert_eq!(hash.bits, vec![true, false]);
}

#[test]
fn difference_default_grid_is_64_bits() {
    let img = GrayscaleImage::new((0u8..72).collect(), 9, 8);
    let hash = difference_hash_core(&img, 8, 8);
    assert_eq!(hash.bits.len(), 64);
}

#[test]
fn difference_is_deterministic() {
    let pixels: Vec<u8> = (0..72).map(|i| (i * 53 % 256) as u8).collect();
    let a = difference_hash_core(&GrayscaleImage::new(pixels.clone(), 9, 8), 8, 8);
    let b = difference_hash_core(&GrayscaleImage::new(pixels, 9, 8), 8, 8);
    assert_eq!(a.bits, b.bits);
}

#[test]
fn small_perturbation_stays_close() {
    // A near-duplicate buffer hashes closer to its base than an
    // unrelated buffer does.
    let base: Vec<u8> = (0..64).map(|i| (4 * i) as u8).collect();
    let mut nearby = base.clone();
    nearby[27] = nearby[27].saturating_add(3);
    let unrelated: Vec<u8> = base.iter().map(|&v| 255 - v).collect();

    let h_base = average_hash_core(&GrayscaleImage::new(base, 8, 8), 8, 8);
    let h_near = average_hash_core(&GrayscaleImage::new(nearby, 8, 8), 8, 8);
    let h_far = average_hash_core(&GrayscaleImage::new(unrelated, 8, 8), 8, 8);

    assert!(hamming(&h_base.bits, &h_near.bits) < hamming(&h_base.bits, &h_far.bits));
}

#[test]
fn grayscale_accessors_expose_the_buffer() {
    let img = GrayscaleImage::new(vec![9, 8, 7, 6, 5, 4], 3, 2);
    assert_eq!(img.width(), 3);
    assert_eq!(img.height(), 2);
    assert_eq!(img.iter_pixels_as(), vec![9, 8, 7, 6, 5, 4]);
    let rows = img.iter_rows_as();
    assert_eq!(rows, vec![vec![9, 8, 7], vec![6, 5, 4]]);
    assert_eq!(img.pixel(2, 1), 4);
}
