//! Tests of the hash value's byte packing and hexadecimal rendering.

fn bits_of_bytes(bytes: &[u8]) -> Vec<bool> {
    let mut bits = Vec::new();
    for &b in bytes {
        for p in 0..8 {
            bits.push(b & (1 << (7 - p)) != 0);
        }
    }
    bits
}

fn decode_hex(s: &str) -> Vec<u8> {
    let chars: Vec<char> = s.chars().collect();
    assert_eq!(chars.len() % 2, 0);
    let mut bytes = Vec::new();
    for pair in chars.chunks(2) {
        let hi = pair[0].to_digit(16).unwrap() as u8;
        let lo = pair[1].to_digit(16).unwrap() as u8;
        bytes.push(hi * 16 + lo);
    }
    bytes
}

#[test]
fn to_bytes_msb_first() {
    let hash = imagehash::Hash {
        bits: vec![true, false, false, false, false, false, false, true],
    };
    assert_eq!(hash.to_bytes(), vec![0x81]);
}

#[test]
fn to_bytes_partial_byte_zero_padded() {
    // Twelve bits: the second byte holds only four of them, in its high bits.
    let hash = imagehash::Hash {
        bits: vec![
            true, true, true, true, false, false, false, false, true, true, false, false,
        ],
    };
    assert_eq!(hash.to_bytes(), vec![0xf0, 0xc0]);
}

#[test]
fn to_bytes_empty() {
    let hash = imagehash::Hash { bits: vec![] };
    assert_eq!(hash.to_bytes(), Vec::<u8>::new());
}

#[test]
fn to_bytes_round_trips_through_bit_positions() {
    let bytes = vec![0x00, 0x7c, 0xf0, 0xe0, 0xea, 0xfe, 0xfe, 0x5a];
    let hash = imagehash::Hash {
        bits: bits_of_bytes(&bytes),
    };
    assert_eq!(hash.to_bytes(), bytes);
}

#[test]
fn to_hex_known_bytes() {
    let hash = imagehash::Hash {
        bits: bits_of_bytes(&[0x5a, 0x00, 0xff]),
    };
    assert_eq!(hash.to_hex(), "5a00ff");
}

#[test]
fn to_hex_shape() {
    for n in 0..32 {
        let bits: Vec<bool> = (0..n).map(|i| i % 3 == 0).collect();
        let hash = imagehash::Hash { bits };
        let hex = hash.to_hex();
        assert_eq!(hex.len(), 2 * ((n + 7) / 8));
        assert!(hex.chars().all(|c| c.is_ascii_hexdigit() && !c.is_ascii_uppercase()));
    }
}

#[test]
fn hex_decodes_back_to_packed_bytes() {
    for n in 0..40 {
        let bits: Vec<bool> = (0..n).map(|i| (i * 7) % 5 < 2).collect();
        let hash = imagehash::Hash { bits };
        assert_eq!(decode_hex(&hash.to_hex()), hash.to_bytes());
    }
}
