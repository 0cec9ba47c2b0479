//! Perceptual image fingerprints: average hash and difference hash over a
//! grayscale pixel grid, with MSB-first bit packing and lowercase hex output.

use vstd::prelude::*;
use vstd::string::StringExecFns;

pub mod average;
pub mod difference;
pub mod grayscale;
pub mod preprocess;

pub use average::average_hash;
pub use average::average_hash_core;
pub use average::AverageHash;
pub use difference::difference_hash;
pub use difference::difference_hash_core;
pub use difference::DifferenceHash;
pub use grayscale::GrayscaleImage;
pub use preprocess::Resizer;

verus! {

/// Represents a hash value.
#[derive(Debug)]
pub struct Hash {
    /// The bit vector representation of the hash, row-major over the hash grid.
    pub bits: Vec<bool>,
}

/// The contribution of bit `i`: one for a set bit, zero for a clear bit or a
/// position past the end of the sequence (the zero padding of the last byte).
pub open spec fn bit_val(bits: Seq<bool>, i: int) -> int {
    if 0 <= i < bits.len() && bits[i] {
        1
    } else {
        0
    }
}

/// The value of the first `p` bit slots of byte `j`, MSB first: slot `p` of
/// byte `j` is bit `8 * j + p` of the sequence.
pub open spec fn byte_prefix(bits: Seq<bool>, j: int, p: int) -> int
    decreases p,
{
    if p <= 0 {
        0
    } else {
        2 * byte_prefix(bits, j, p - 1) + bit_val(bits, 8 * j + (p - 1))
    }
}

/// The value of byte `j` of the packed representation.
pub open spec fn byte_of(bits: Seq<bool>, j: int) -> int {
    byte_prefix(bits, j, 8)
}

/// The number of bytes needed to hold `n` bits.
pub open spec fn byte_len(n: nat) -> nat {
    ((n + 7) / 8) as nat
}

/// The packed byte sequence of a bit sequence: bit `i` lands in byte `i / 8`
/// at position `7 - (i % 8)`.
pub open spec fn bytes_of_bits(bits: Seq<bool>) -> Seq<u8> {
    Seq::new(byte_len(bits.len()), |j: int| byte_of(bits, j) as u8)
}

/// Two to the power `p` (one for `p <= 0`).
pub open spec fn two_pow(p: int) -> int
    decreases p,
{
    if p <= 0 {
        1
    } else {
        2 * two_pow(p - 1)
    }
}

pub proof fn lemma_two_pow_pos(p: int)
    ensures
        1 <= two_pow(p),
    decreases p,
{
    if p > 0 {
        lemma_two_pow_pos(p - 1);
    }
}

pub proof fn lemma_two_pow_mono(p: int, q: int)
    requires
        0 <= p <= q,
    ensures
        two_pow(p) <= two_pow(q),
    decreases q,
{
    lemma_two_pow_pos(p);
    if p < q {
        lemma_two_pow_mono(p, q - 1);
        lemma_two_pow_pos(q - 1);
    }
}

/// A partial byte of `p` bit slots is a value below `2^p`.
pub proof fn lemma_byte_prefix_bound(bits: Seq<bool>, j: int, p: int)
    requires
        0 <= p,
    ensures
        0 <= byte_prefix(bits, j, p) < two_pow(p),
    decreases p,
{
    if p > 0 {
        lemma_byte_prefix_bound(bits, j, p - 1);
    }
}

/// The lowercase hexadecimal digit of a value in `[0, 16)`.
pub open spec fn hex_digit(n: int) -> char {
    if n == 0 {
        '0'
    } else if n == 1 {
        '1'
    } else if n == 2 {
        '2'
    } else if n == 3 {
        '3'
    } else if n == 4 {
        '4'
    } else if n == 5 {
        '5'
    } else if n == 6 {
        '6'
    } else if n == 7 {
        '7'
    } else if n == 8 {
        '8'
    } else if n == 9 {
        '9'
    } else if n == 10 {
        'a'
    } else if n == 11 {
        'b'
    } else if n == 12 {
        'c'
    } else if n == 13 {
        'd'
    } else if n == 14 {
        'e'
    } else {
        'f'
    }
}

/// The hex rendering of a byte sequence: two lowercase digits per byte, high
/// nibble first, no separators and no prefix.
pub open spec fn hex_of_bytes(bytes: Seq<u8>) -> Seq<char> {
    Seq::new(
        2 * bytes.len(),
        |i: int|
            if i % 2 == 0 {
                hex_digit((bytes[i / 2] as int) / 16)
            } else {
                hex_digit((bytes[i / 2] as int) % 16)
            },
    )
}

/// Whether `c` is a lowercase hexadecimal digit.
pub open spec fn is_hex_digit_char(c: char) -> bool {
    exists|n: int| 0 <= n < 16 && c == hex_digit(n)
}

/// The value of a lowercase hexadecimal digit (15 for a character that is no
/// such digit).
pub open spec fn hex_val(c: char) -> int {
    if c == '0' {
        0
    } else if c == '1' {
        1
    } else if c == '2' {
        2
    } else if c == '3' {
        3
    } else if c == '4' {
        4
    } else if c == '5' {
        5
    } else if c == '6' {
        6
    } else if c == '7' {
        7
    } else if c == '8' {
        8
    } else if c == '9' {
        9
    } else if c == 'a' {
        10
    } else if c == 'b' {
        11
    } else if c == 'c' {
        12
    } else if c == 'd' {
        13
    } else if c == 'e' {
        14
    } else {
        15
    }
}

/// The bytes read back from a hex rendering: one byte per pair of digits.
pub open spec fn hex_decode(s: Seq<char>) -> Seq<u8> {
    Seq::new(s.len() / 2, |j: int| (hex_val(s[2 * j]) * 16 + hex_val(s[2 * j + 1])) as u8)
}

pub proof fn lemma_hex_val_of_digit(n: int)
    requires
        0 <= n < 16,
    ensures
        hex_val(hex_digit(n)) == n,
{
}

/// Law: decoding the hexadecimal rendering of a packed bit sequence yields the
/// packed bytes again, byte for byte.
pub proof fn lemma_hex_round_trip(bits: Seq<bool>)
    ensures
        hex_decode(hex_of_bytes(bytes_of_bits(bits))) == bytes_of_bits(bits),
{
    let bytes = bytes_of_bits(bits);
    let hex = hex_of_bytes(bytes);
    assert forall|j: int| 0 <= j < bytes.len() implies hex_decode(hex)[j] == bytes[j] by {
        let b = bytes[j] as int;
        assert(hex[2 * j] == hex_digit(b / 16));
        assert(hex[2 * j + 1] == hex_digit(b % 16));
        lemma_hex_val_of_digit(b / 16);
        lemma_hex_val_of_digit(b % 16);
        assert(b == (b / 16) * 16 + b % 16);
    }
    assert(hex_decode(hex) =~= bytes);
}

/// Law: the hexadecimal rendering of a bit sequence consists of lowercase hex
/// digits only, two per packed byte.
pub proof fn lemma_hex_shape(bits: Seq<bool>)
    ensures
        hex_of_bytes(bytes_of_bits(bits)).len() == 2 * ((bits.len() + 7) / 8),
        forall|i: int|
            0 <= i < hex_of_bytes(bytes_of_bits(bits)).len() ==> is_hex_digit_char(
                #[trigger] hex_of_bytes(bytes_of_bits(bits))[i],
            ),
{
    let bytes = bytes_of_bits(bits);
    let hex = hex_of_bytes(bytes);
    assert forall|i: int| 0 <= i < hex.len() implies is_hex_digit_char(hex[i]) by {
        let b = bytes[i / 2] as int;
        if i % 2 == 0 {
            assert(hex[i] == hex_digit(b / 16));
            assert(0 <= b / 16 < 16);
        } else {
            assert(hex[i] == hex_digit(b % 16));
            assert(0 <= b % 16 < 16);
        }
    }
}

impl Hash {
    /// Returns the byte vector representation of the hash: MSB-first packing,
    /// with the low bits of a trailing partial byte left at zero.
    pub fn to_bytes(&self) -> (r: Vec<u8>)
        ensures
            r@ == bytes_of_bits(self.bits@),
    {
        let n = self.bits.len();
        let mut bytes: Vec<u8> = Vec::new();
        let mut acc: u8 = 0;
        let mut filled: usize = 0;
        for i in 0..n
            invariant
                n == self.bits@.len(),
                filled < 8,
                i == 8 * bytes@.len() + filled,
                acc == byte_prefix(self.bits@, bytes@.len() as int, filled as int),
                forall|k: int|
                    0 <= k < bytes@.len() ==> #[trigger] bytes@[k] == byte_of(self.bits@, k) as u8,
                forall|k: int| 0 <= k < bytes@.len() ==> 0 <= #[trigger] byte_of(self.bits@, k) < 256,
        {
            let b: u8 = if self.bits[i] {
                1
            } else {
                0
            };
            proof {
                lemma_byte_prefix_bound(self.bits@, bytes@.len() as int, filled as int);
                lemma_two_pow_mono(filled as int, 7);
                assert(two_pow(7) == 128) by {
                    reveal_with_fuel(two_pow, 9);
                }
            }
            acc = 2 * acc + b;
            filled = filled + 1;
            if filled == 8 {
                bytes.push(acc);
                acc = 0;
                filled = 0;
            }
        }
        if filled > 0 {
            while filled < 8
                invariant
                    0 < filled <= 8,
                    n == self.bits@.len(),
                    n <= 8 * bytes@.len() + filled,
                    8 * bytes@.len() < n,
                    acc == byte_prefix(self.bits@, bytes@.len() as int, filled as int),
                    forall|k: int|
                        0 <= k < bytes@.len() ==> #[trigger] bytes@[k] == byte_of(
                            self.bits@,
                            k,
                        ) as u8,
                decreases 8 - filled,
            {
                proof {
                    lemma_byte_prefix_bound(self.bits@, bytes@.len() as int, filled as int);
                    lemma_two_pow_mono(filled as int, 7);
                    assert(two_pow(7) == 128) by {
                        reveal_with_fuel(two_pow, 9);
                    }
                    assert(bit_val(self.bits@, 8 * bytes@.len() + filled) == 0);
                }
                acc = 2 * acc;
                filled = filled + 1;
            }
            bytes.push(acc);
        }
        proof {
            assert(bytes@ =~= bytes_of_bits(self.bits@));
        }
        bytes
    }

    /// Returns the lowercase hexadecimal string representation of the hash:
    /// two digits per packed byte, no separators, no prefix.
    pub fn to_hex(&self) -> (r: String)
        ensures
            r@ == hex_of_bytes(bytes_of_bits(self.bits@)),
    {
        let bytes = self.to_bytes();
        let mut s = String::new();
        let n = bytes.len();
        for i in 0..n
            invariant
                bytes@ == bytes_of_bits(self.bits@),
                n == bytes@.len(),
                s@ == hex_of_bytes(bytes@).subrange(0, 2 * i),
        {
            let b = bytes[i];
            let hi = hex_char(b / 16);
            let lo = hex_char(b % 16);
            s.append(hi);
            s.append(lo);
            proof {
                assert(s@ =~= hex_of_bytes(bytes@).subrange(0, 2 * (i + 1)));
            }
        }
        proof {
            assert(s@ =~= hex_of_bytes(bytes@));
        }
        s
    }
}

/// The lowercase hexadecimal digit of a nibble, as a one-character string.
fn hex_char(n: u8) -> (r: &'static str)
    requires
        n < 16,
    ensures
        r@.len() == 1,
        r@[0] == hex_digit(n as int),
{
    proof {
        reveal_strlit("0");
        reveal_strlit("1");
        reveal_strlit("2");
        reveal_strlit("3");
        reveal_strlit("4");
        reveal_strlit("5");
        reveal_strlit("6");
        reveal_strlit("7");
        reveal_strlit("8");
        reveal_strlit("9");
        reveal_strlit("a");
        reveal_strlit("b");
        reveal_strlit("c");
        reveal_strlit("d");
        reveal_strlit("e");
        reveal_strlit("f");
    }
    if n == 0 {
        "0"
    } else if n == 1 {
        "1"
    } else if n == 2 {
        "2"
    } else if n == 3 {
        "3"
    } else if n == 4 {
        "4"
    } else if n == 5 {
        "5"
    } else if n == 6 {
        "6"
    } else if n == 7 {
        "7"
    } else if n == 8 {
        "8"
    } else if n == 9 {
        "9"
    } else if n == 10 {
        "a"
    } else if n == 11 {
        "b"
    } else if n == 12 {
        "c"
    } else if n == 13 {
        "d"
    } else if n == 14 {
        "e"
    } else {
        "f"
    }
}

} // verus!
