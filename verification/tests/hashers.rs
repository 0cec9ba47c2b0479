//! End-to-end tests through the external image crate: decoded images in,
//! hex-rendered hashes out.
//!
//! Sources whose dimensions already match the resample target pass through
//! the resampler unchanged, so their samples are exact and the expected
//! hashes can be computed by hand.

use imagehash::average_hash;
use imagehash::difference_hash;
use imagehash::AverageHash;
use imagehash::DifferenceHash;
use imagehash::Resizer;

fn luma_image(width: u32, height: u32, pixels: Vec<u8>) -> image::DynamicImage {
    let buf = image::GrayImage::from_raw(width, height, pixels).unwrap();
    image::DynamicImage::ImageLuma8(buf)
}

#[test]
fn average_hash_of_uniform_image_is_all_zero() {
    // Every sample ties with the mean, and ties go to false.
    let img = image::DynamicImage::new_luma8(8, 8);
    let hash = average_hash(&img);
    assert_eq!(hash.to_hex(), "0000000000000000");
}

#[test]
fn average_hash_of_half_bright_image() {
    // Left half dark, right half bright: each row packs to 0x0f.
    let mut pixels = Vec::new();
    for _y in 0..8 {
        pixels.extend_from_slice(&[0, 0, 0, 0, 200, 200, 200, 200]);
    }
    let img = luma_image(8, 8, pixels);
    let hash = average_hash(&img);
    assert_eq!(hash.to_hex(), "0f0f0f0f0f0f0f0f");
}

#[test]
fn difference_hash_of_sawtooth_image() {
    // Each row alternates rising and non-rising pairs: 0xaa per row.
    let mut pixels = Vec::new();
    for _y in 0..8 {
        pixels.extend_from_slice(&[0, 1, 1, 2, 0, 3, 3, 4, 0]);
    }
    let img = luma_image(9, 8, pixels);
    let hash = difference_hash(&img);
    assert_eq!(hash.to_hex(), "aaaaaaaaaaaaaaaa");
}

#[test]
fn rgb_and_luma_renderings_hash_alike() {
    // A two-level image keeps its ordering under any monotonic grayscale
    // conversion, so the thresholded bits agree between the color image and
    // its luminance twin.
    let mut rgb = Vec::new();
    let mut luma = Vec::new();
    for _y in 0..8 {
        for x in 0..8u32 {
            let v = if x < 4 { 10 } else { 240 };
            rgb.extend_from_slice(&[v, v, v]);
            luma.push(v);
        }
    }
    let rgb_img = image::DynamicImage::ImageRgb8(
        image::RgbImage::from_raw(8, 8, rgb).unwrap(),
    );
    let luma_img = luma_image(8, 8, luma);
    assert_eq!(average_hash(&rgb_img).bits, average_hash(&luma_img).bits);
}

#[test]
fn hashes_have_the_documented_length() {
    let img = image::DynamicImage::new_rgb8(20, 14);
    assert_eq!(average_hash(&img).bits.len(), 64);
    assert_eq!(difference_hash(&img).bits.len(), 64);
}

#[test]
fn hashing_twice_yields_identical_bits() {
    let pixels: Vec<u8> = (0..64u32).map(|i| (i * 41 % 256) as u8).collect();
    let img = luma_image(8, 8, pixels);
    assert_eq!(average_hash(&img).bits, average_hash(&img).bits);
    assert_eq!(difference_hash(&img).bits, difference_hash(&img).bits);
}

#[test]
fn builder_with_default_parameters_matches_free_function() {
    let pixels: Vec<u8> = (0..64u32).map(|i| (i * 11 % 256) as u8).collect();
    let img = luma_image(8, 8, pixels);
    let hasher = AverageHash::new()
        .with_image_size(8, 8)
        .with_hash_size(8, 8)
        .with_resizer(Resizer::Lanczos3);
    assert_eq!(hasher.hash(&img).bits, average_hash(&img).bits);

    let hasher = DifferenceHash::new().with_image_size(9, 8).with_hash_size(8, 8);
    let pixels: Vec<u8> = (0..72u32).map(|i| (i * 13 % 256) as u8).collect();
    let img = luma_image(9, 8, pixels);
    assert_eq!(hasher.hash(&img).bits, difference_hash(&img).bits);
}

#[test]
fn mean_window_restriction_applies_end_to_end() {
    // A 16x16 source hashed with a 16x16 resample target but an 8x8 hash
    // grid: the mean window is the top-left 8x8 block. That block is
    // uniformly bright, so every one of its samples ties with the mean.
    let mut pixels = vec![0u8; 256];
    for y in 0..8 {
        for x in 0..8 {
            pixels[y * 16 + x] = 200;
        }
    }
    let img = luma_image(16, 16, pixels);
    let hash = AverageHash::new().with_image_size(16, 16).hash(&img);
    assert_eq!(hash.to_hex(), "0000000000000000");
}

#[test]
fn non_square_resample_target_crops_the_hash_grid() {
    // With a resample target smaller than the hash grid in one dimension,
    // the emitted grid is cropped to the window that fed the mean.
    let img = image::DynamicImage::new_luma8(10, 10);
    let hash = AverageHash::new().with_image_size(8, 4).hash(&img);
    assert_eq!(hash.bits.len(), 32);
}

#[test]
fn other_resampling_filters_are_accepted() {
    let img = image::DynamicImage::new_rgb8(30, 20);
    let hash = AverageHash::new()
        .with_resizer(Resizer::Filter(image::imageops::FilterType::Nearest))
        .hash(&img);
    assert_eq!(hash.bits.len(), 64);
}

#[test]
fn zero_area_source_is_handled_deterministically() {
    let img = image::DynamicImage::new_luma8(0, 0);
    let a = average_hash(&img);
    let b = average_hash(&img);
    assert_eq!(a.bits.len(), 64);
    assert_eq!(a.bits, b.bits);
    let d = difference_hash(&img);
    assert_eq!(d.bits.len(), 64);
}
