//! The machine integers as plain-old-data types.
//!
//! The image of an unsigned integer is the sequence of its base-256 digits,
//! least significant first; a signed integer is first taken to its two's
//! complement. `usize` and `isize` have as many bytes as the machine word.

use vstd::prelude::*;
use crate::encoding::{
    le_digits, le_value, lemma_le_digits_len, lemma_le_digits_of_value, lemma_le_digits_of_zero,
    lemma_le_value_bound, lemma_le_value_of_digits, lemma_radix_pow_values,
    lemma_signed_value_inverse, lemma_twos_complement_inverse, push_le_digits, radix_pow,
    read_le_digits, signed_value, twos_complement,
};
use crate::pod::Pod;

verus! {

impl Pod for u8 {
    open spec fn spec_size() -> nat {
        1
    }

    open spec fn bytes(self) -> Seq<u8> {
        le_digits(self as nat, 1)
    }

    open spec fn from_bytes(bytes: Seq<u8>) -> Self {
        le_value(bytes) as u8
    }

    proof fn lemma_bytes_len(self) {
        lemma_le_digits_len(self as nat, 1);
    }

    proof fn lemma_from_bytes_of_bytes(self) {
        lemma_radix_pow_values();
        lemma_le_value_of_digits(self as nat, 1);
    }

    proof fn lemma_bytes_of_from_bytes(bytes: Seq<u8>) {
        lemma_radix_pow_values();
        lemma_le_value_bound(bytes);
        lemma_le_digits_of_value(bytes);
    }

    fn size() -> (n: Option<usize>) {
        Some(1)
    }

    fn zeroed() -> (z: Self) {
        proof {
            lemma_le_digits_of_zero(1);
        }
        0
    }

    fn write_bytes(&self, out: &mut Vec<u8>) {
        push_le_digits(*self as u64, 1, out);
    }

    fn read_bytes(bytes: &[u8], at: usize) -> (v: Self) {
        let u: u64 = read_le_digits(bytes, at, 1);
        proof {
            lemma_radix_pow_values();
            lemma_le_value_bound(bytes@.subrange(at as int, at + 1));
        }
        u as u8
    }
}

impl Pod for u16 {
    open spec fn spec_size() -> nat {
        2
    }

    open spec fn bytes(self) -> Seq<u8> {
        le_digits(self as nat, 2)
    }

    open spec fn from_bytes(bytes: Seq<u8>) -> Self {
        le_value(bytes) as u16
    }

    proof fn lemma_bytes_len(self) {
        lemma_le_digits_len(self as nat, 2);
    }

    proof fn lemma_from_bytes_of_bytes(self) {
        lemma_radix_pow_values();
        lemma_le_value_of_digits(self as nat, 2);
    }

    proof fn lemma_bytes_of_from_bytes(bytes: Seq<u8>) {
        lemma_radix_pow_values();
        lemma_le_value_bound(bytes);
        lemma_le_digits_of_value(bytes);
    }

    fn size() -> (n: Option<usize>) {
        Some(2)
    }

    fn zeroed() -> (z: Self) {
        proof {
            lemma_le_digits_of_zero(2);
        }
        0
    }

    fn write_bytes(&self, out: &mut Vec<u8>) {
        push_le_digits(*self as u64, 2, out);
    }

    fn read_bytes(bytes: &[u8], at: usize) -> (v: Self) {
        let u: u64 = read_le_digits(bytes, at, 2);
        proof {
            lemma_radix_pow_values();
            lemma_le_value_bound(bytes@.subrange(at as int, at + 2));
        }
        u as u16
    }
}

impl Pod for u32 {
    open spec fn spec_size() -> nat {
        4
    }

    open spec fn bytes(self) -> Seq<u8> {
        le_digits(self as nat, 4)
    }

    open spec fn from_bytes(bytes: Seq<u8>) -> Self {
        le_value(bytes) as u32
    }

    proof fn lemma_bytes_len(self) {
        lemma_le_digits_len(self as nat, 4);
    }

    proof fn lemma_from_bytes_of_bytes(self) {
        lemma_radix_pow_values();
        lemma_le_value_of_digits(self as nat, 4);
    }

    proof fn lemma_bytes_of_from_bytes(bytes: Seq<u8>) {
        lemma_radix_pow_values();
        lemma_le_value_bound(bytes);
        lemma_le_digits_of_value(bytes);
    }

    fn size() -> (n: Option<usize>) {
        Some(4)
    }

    fn zeroed() -> (z: Self) {
        proof {
            lemma_le_digits_of_zero(4);
        }
        0
    }

    fn write_bytes(&self, out: &mut Vec<u8>) {
        push_le_digits(*self as u64, 4, out);
    }

    fn read_bytes(bytes: &[u8], at: usize) -> (v: Self) {
        let u: u64 = read_le_digits(bytes, at, 4);
        proof {
            lemma_radix_pow_values();
            lemma_le_value_bound(bytes@.subrange(at as int, at + 4));
        }
        u as u32
    }
}

impl Pod for u64 {
    open spec fn spec_size() -> nat {
        8
    }

    open spec fn bytes(self) -> Seq<u8> {
        le_digits(self as nat, 8)
    }

    open spec fn from_bytes(bytes: Seq<u8>) -> Self {
        le_value(bytes) as u64
    }

    proof fn lemma_bytes_len(self) {
        lemma_le_digits_len(self as nat, 8);
    }

    proof fn lemma_from_bytes_of_bytes(self) {
        lemma_radix_pow_values();
        lemma_le_value_of_digits(self as nat, 8);
    }

    proof fn lemma_bytes_of_from_bytes(bytes: Seq<u8>) {
        lemma_radix_pow_values();
        lemma_le_value_bound(bytes);
        lemma_le_digits_of_value(bytes);
    }

    fn size() -> (n: Option<usize>) {
        Some(8)
    }

    fn zeroed() -> (z: Self) {
        proof {
            lemma_le_digits_of_zero(8);
        }
        0
    }

    fn write_bytes(&self, out: &mut Vec<u8>) {
        push_le_digits(*self, 8, out);
    }

    fn read_bytes(bytes: &[u8], at: usize) -> (v: Self) {
        let u: u64 = read_le_digits(bytes, at, 8);
        proof {
            lemma_radix_pow_values();
            lemma_le_value_bound(bytes@.subrange(at as int, at + 8));
        }
        u
    }
}

impl Pod for i8 {
    open spec fn spec_size() -> nat {
        1
    }

    open spec fn bytes(self) -> Seq<u8> {
        le_digits(twos_complement(self as int, 1), 1)
    }

    open spec fn from_bytes(bytes: Seq<u8>) -> Self {
        signed_value(le_value(bytes), 1) as i8
    }

    proof fn lemma_bytes_len(self) {
        lemma_le_digits_len(twos_complement(self as int, 1), 1);
    }

    proof fn lemma_from_bytes_of_bytes(self) {
        lemma_radix_pow_values();
        lemma_twos_complement_inverse(self as int, 1);
        lemma_le_value_of_digits(twos_complement(self as int, 1), 1);
    }

    proof fn lemma_bytes_of_from_bytes(bytes: Seq<u8>) {
        lemma_radix_pow_values();
        lemma_le_value_bound(bytes);
        lemma_signed_value_inverse(le_value(bytes), 1);
        lemma_le_digits_of_value(bytes);
    }

    fn size() -> (n: Option<usize>) {
        Some(1)
    }

    fn zeroed() -> (z: Self) {
        proof {
            lemma_le_digits_of_zero(1);
        }
        0
    }

    fn write_bytes(&self, out: &mut Vec<u8>) {
        proof {
            lemma_radix_pow_values();
        }
        let u: u64 = if *self >= 0 {
            *self as u64
        } else {
            (*self as i128 + 0x100) as u64
        };
        push_le_digits(u, 1, out);
    }

    fn read_bytes(bytes: &[u8], at: usize) -> (v: Self) {
        let u: u64 = read_le_digits(bytes, at, 1);
        proof {
            lemma_radix_pow_values();
            lemma_le_value_bound(bytes@.subrange(at as int, at + 1));
        }
        if u < 0x80 {
            u as i8
        } else {
            (u as i128 - 0x100) as i8
        }
    }
}

impl Pod for i16 {
    open spec fn spec_size() -> nat {
        2
    }

    open spec fn bytes(self) -> Seq<u8> {
        le_digits(twos_complement(self as int, 2), 2)
    }

    open spec fn from_bytes(bytes: Seq<u8>) -> Self {
        signed_value(le_value(bytes), 2) as i16
    }

    proof fn lemma_bytes_len(self) {
        lemma_le_digits_len(twos_complement(self as int, 2), 2);
    }

    proof fn lemma_from_bytes_of_bytes(self) {
        lemma_radix_pow_values();
        lemma_twos_complement_inverse(self as int, 2);
        lemma_le_value_of_digits(twos_complement(self as int, 2), 2);
    }

    proof fn lemma_bytes_of_from_bytes(bytes: Seq<u8>) {
        lemma_radix_pow_values();
        lemma_le_value_bound(bytes);
        lemma_signed_value_inverse(le_value(bytes), 2);
        lemma_le_digits_of_value(bytes);
    }

    fn size() -> (n: Option<usize>) {
        Some(2)
    }

    fn zeroed() -> (z: Self) {
        proof {
            lemma_le_digits_of_zero(2);
        }
        0
    }

    fn write_bytes(&self, out: &mut Vec<u8>) {
        proof {
            lemma_radix_pow_values();
        }
        let u: u64 = if *self >= 0 {
            *self as u64
        } else {
            (*self as i128 + 0x1_0000) as u64
        };
        push_le_digits(u, 2, out);
    }

    fn read_bytes(bytes: &[u8], at: usize) -> (v: Self) {
        let u: u64 = read_le_digits(bytes, at, 2);
        proof {
            lemma_radix_pow_values();
            lemma_le_value_bound(bytes@.subrange(at as int, at + 2));
        }
        if u < 0x8000 {
            u as i16
        } else {
            (u as i128 - 0x1_0000) as i16
        }
    }
}

impl Pod for i32 {
    open spec fn spec_size() -> nat {
        4
    }

    open spec fn bytes(self) -> Seq<u8> {
        le_digits(twos_complement(self as int, 4), 4)
    }

    open spec fn from_bytes(bytes: Seq<u8>) -> Self {
        signed_value(le_value(bytes), 4) as i32
    }

    proof fn lemma_bytes_len(self) {
        lemma_le_digits_len(twos_complement(self as int, 4), 4);
    }

    proof fn lemma_from_bytes_of_bytes(self) {
        lemma_radix_pow_values();
        lemma_twos_complement_inverse(self as int, 4);
        lemma_le_value_of_digits(twos_complement(self as int, 4), 4);
    }

    proof fn lemma_bytes_of_from_bytes(bytes: Seq<u8>) {
        lemma_radix_pow_values();
        lemma_le_value_bound(bytes);
        lemma_signed_value_inverse(le_value(bytes), 4);
        lemma_le_digits_of_value(bytes);
    }

    fn size() -> (n: Option<usize>) {
        Some(4)
    }

    fn zeroed() -> (z: Self) {
        proof {
            lemma_le_digits_of_zero(4);
        }
        0
    }

    fn write_bytes(&self, out: &mut Vec<u8>) {
        proof {
            lemma_radix_pow_values();
        }
        let u: u64 = if *self >= 0 {
            *self as u64
        } else {
            (*self as i128 + 0x1_0000_0000) as u64
        };
        push_le_digits(u, 4, out);
    }

    fn read_bytes(bytes: &[u8], at: usize) -> (v: Self) {
        let u: u64 = read_le_digits(bytes, at, 4);
        proof {
            lemma_radix_pow_values();
            lemma_le_value_bound(bytes@.subrange(at as int, at + 4));
        }
        if u < 0x8000_0000 {
            u as i32
        } else {
            (u as i128 - 0x1_0000_0000) as i32
        }
    }
}

impl Pod for i64 {
    open spec fn spec_size() -> nat {
        8
    }

    open spec fn bytes(self) -> Seq<u8> {
        le_digits(twos_complement(self as int, 8), 8)
    }

    open spec fn from_bytes(bytes: Seq<u8>) -> Self {
        signed_value(le_value(bytes), 8) as i64
    }

    proof fn lemma_bytes_len(self) {
        lemma_le_digits_len(twos_complement(self as int, 8), 8);
    }

    proof fn lemma_from_bytes_of_bytes(self) {
        lemma_radix_pow_values();
        lemma_twos_complement_inverse(self as int, 8);
        lemma_le_value_of_digits(twos_complement(self as int, 8), 8);
    }

    proof fn lemma_bytes_of_from_bytes(bytes: Seq<u8>) {
        lemma_radix_pow_values();
        lemma_le_value_bound(bytes);
        lemma_signed_value_inverse(le_value(bytes), 8);
        lemma_le_digits_of_value(bytes);
    }

    fn size() -> (n: Option<usize>) {
        Some(8)
    }

    fn zeroed() -> (z: Self) {
        proof {
            lemma_le_digits_of_zero(8);
        }
        0
    }

    fn write_bytes(&self, out: &mut Vec<u8>) {
        proof {
            lemma_radix_pow_values();
        }
        let u: u64 = if *self >= 0 {
            *self as u64
        } else {
            (*self as i128 + 0x1_0000_0000_0000_0000) as u64
        };
        push_le_digits(u, 8, out);
    }

    fn read_bytes(bytes: &[u8], at: usize) -> (v: Self) {
        let u: u64 = read_le_digits(bytes, at, 8);
        proof {
            lemma_radix_pow_values();
            lemma_le_value_bound(bytes@.subrange(at as int, at + 8));
        }
        if u < 0x8000_0000_0000_0000 {
            u as i64
        } else {
            (u as i128 - 0x1_0000_0000_0000_0000) as i64
        }
    }
}

/// The number of bytes of a machine word.
pub open spec fn word_size() -> nat {
    (usize::BITS / 8) as nat
}

/// A machine word has four or eight bytes, and `usize` and `isize` hold what
/// that many bytes can tell apart.
pub proof fn lemma_word_size()
    ensures
        word_size() == 4 || word_size() == 8,
        radix_pow(word_size()) == usize::MAX + 1,
        radix_pow(word_size()) == 2 * (isize::MAX + 1),
        isize::MIN == -isize::MAX - 1,
{
    lemma_radix_pow_values();
}

/// The number of bytes of a machine word.
fn word_bytes() -> (n: usize)
    ensures
        n == word_size(),
        n == 4 || n == 8,
{
    (usize::BITS / 8) as usize
}

impl Pod for usize {
    open spec fn spec_size() -> nat {
        word_size()
    }

    open spec fn bytes(self) -> Seq<u8> {
        le_digits(self as nat, word_size())
    }

    open spec fn from_bytes(bytes: Seq<u8>) -> Self {
        le_value(bytes) as usize
    }

    proof fn lemma_bytes_len(self) {
        lemma_le_digits_len(self as nat, word_size());
    }

    proof fn lemma_from_bytes_of_bytes(self) {
        lemma_word_size();
        lemma_le_value_of_digits(self as nat, word_size());
    }

    proof fn lemma_bytes_of_from_bytes(bytes: Seq<u8>) {
        lemma_word_size();
        lemma_le_value_bound(bytes);
        lemma_le_digits_of_value(bytes);
    }

    fn size() -> (n: Option<usize>) {
        Some(word_bytes())
    }

    fn zeroed() -> (z: Self) {
        proof {
            lemma_le_digits_of_zero(word_size());
        }
        0
    }

    fn write_bytes(&self, out: &mut Vec<u8>) {
        push_le_digits(*self as u64, word_bytes(), out);
    }

    fn read_bytes(bytes: &[u8], at: usize) -> (v: Self) {
        let u: u64 = read_le_digits(bytes, at, word_bytes());
        proof {
            lemma_word_size();
            lemma_le_value_bound(bytes@.subrange(at as int, at + word_size()));
        }
        u as usize
    }
}

impl Pod for isize {
    open spec fn spec_size() -> nat {
        word_size()
    }

    open spec fn bytes(self) -> Seq<u8> {
        le_digits(twos_complement(self as int, word_size()), word_size())
    }

    open spec fn from_bytes(bytes: Seq<u8>) -> Self {
        signed_value(le_value(bytes), word_size()) as isize
    }

    proof fn lemma_bytes_len(self) {
        lemma_le_digits_len(twos_complement(self as int, word_size()), word_size());
    }

    proof fn lemma_from_bytes_of_bytes(self) {
        lemma_word_size();
        lemma_twos_complement_inverse(self as int, word_size());
        lemma_le_value_of_digits(twos_complement(self as int, word_size()), word_size());
    }

    proof fn lemma_bytes_of_from_bytes(bytes: Seq<u8>) {
        lemma_word_size();
        lemma_le_value_bound(bytes);
        lemma_signed_value_inverse(le_value(bytes), word_size());
        lemma_le_digits_of_value(bytes);
    }

    fn size() -> (n: Option<usize>) {
        Some(word_bytes())
    }

    fn zeroed() -> (z: Self) {
        proof {
            lemma_le_digits_of_zero(word_size());
        }
        0
    }

    fn write_bytes(&self, out: &mut Vec<u8>) {
        proof {
            lemma_word_size();
        }
        let u: u64 = if *self >= 0 {
            *self as u64
        } else {
            (*self as i128 + usize::MAX as i128 + 1) as u64
        };
        push_le_digits(u, word_bytes(), out);
    }

    fn read_bytes(bytes: &[u8], at: usize) -> (v: Self) {
        let u: u64 = read_le_digits(bytes, at, word_bytes());
        proof {
            lemma_word_size();
            lemma_le_value_bound(bytes@.subrange(at as int, at + word_size()));
        }
        if u <= isize::MAX as u64 {
            u as isize
        } else {
            (u as i128 - usize::MAX as i128 - 1) as isize
        }
    }
}

} // verus!
