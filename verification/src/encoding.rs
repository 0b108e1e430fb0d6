//! Byte images of integers: base-256 digits, least significant first, with
//! negative numbers in two's complement.

use vstd::prelude::*;

verus! {

/// The number of values that `n` bytes can tell apart: 256 to the power `n`.
pub open spec fn radix_pow(n: nat) -> nat
    decreases n,
{
    if n == 0 {
        1
    } else {
        256 * radix_pow((n - 1) as nat)
    }
}

/// The `n` lowest base-256 digits of `v`, least significant first.
pub open spec fn le_digits(v: nat, n: nat) -> Seq<u8>
    decreases n,
{
    if n == 0 {
        Seq::empty()
    } else {
        seq![(v % 256) as u8] + le_digits(v / 256, (n - 1) as nat)
    }
}

/// The number whose base-256 digits, least significant first, are `digits`.
pub open spec fn le_value(digits: Seq<u8>) -> nat
    decreases digits.len(),
{
    if digits.len() == 0 {
        0
    } else {
        digits[0] as nat + 256 * le_value(digits.drop_first())
    }
}

/// The natural number below `radix_pow(n)` that stands for `v` in two's
/// complement on `n` bytes.
pub open spec fn twos_complement(v: int, n: nat) -> nat {
    if v >= 0 {
        v as nat
    } else {
        (v + radix_pow(n)) as nat
    }
}

/// The integer that `u` stands for in two's complement on `n` bytes.
pub open spec fn signed_value(u: nat, n: nat) -> int {
    if 2 * u < radix_pow(n) {
        u as int
    } else {
        u - radix_pow(n)
    }
}

/// The values of `radix_pow` at the sizes of the machine integers.
pub proof fn lemma_radix_pow_values()
    ensures
        radix_pow(0) == 1,
        radix_pow(1) == 0x100,
        radix_pow(2) == 0x1_0000,
        radix_pow(4) == 0x1_0000_0000,
        radix_pow(8) == 0x1_0000_0000_0000_0000,
{
    reveal_with_fuel(radix_pow, 9);
}

/// `radix_pow` grows with its argument.
pub proof fn lemma_radix_pow_monotonic(m: nat, n: nat)
    requires
        m <= n,
    ensures
        0 < radix_pow(m) <= radix_pow(n),
    decreases n,
{
    if m < n {
        lemma_radix_pow_monotonic(m, (n - 1) as nat);
    } else if m > 0 {
        lemma_radix_pow_monotonic((m - 1) as nat, (m - 1) as nat);
    }
}

/// `le_digits(v, n)` has `n` digits.
pub proof fn lemma_le_digits_len(v: nat, n: nat)
    ensures
        le_digits(v, n).len() == n,
    decreases n,
{
    if n > 0 {
        lemma_le_digits_len(v / 256, (n - 1) as nat);
    }
}

/// A number written with `digits.len()` digits is below
/// `radix_pow(digits.len())`.
pub proof fn lemma_le_value_bound(digits: Seq<u8>)
    ensures
        le_value(digits) < radix_pow(digits.len()),
    decreases digits.len(),
{
    if digits.len() > 0 {
        lemma_le_value_bound(digits.drop_first());
    }
}

/// Reading back the `n` digits of a number below `radix_pow(n)` gives the
/// number.
pub proof fn lemma_le_value_of_digits(v: nat, n: nat)
    requires
        v < radix_pow(n),
    ensures
        le_value(le_digits(v, n)) == v,
    decreases n,
{
    if n > 0 {
        let rest = le_digits(v / 256, (n - 1) as nat);
        lemma_le_value_of_digits(v / 256, (n - 1) as nat);
        assert(le_digits(v, n).drop_first() =~= rest);
    }
}

/// Writing the number that `digits` stand for on as many digits gives
/// `digits` back.
pub proof fn lemma_le_digits_of_value(digits: Seq<u8>)
    ensures
        le_digits(le_value(digits), digits.len()) == digits,
    decreases digits.len(),
{
    if digits.len() > 0 {
        let rest = digits.drop_first();
        lemma_le_digits_of_value(rest);
        assert(le_value(digits) % 256 == digits[0]);
        assert(le_value(digits) / 256 == le_value(rest));
        assert(le_digits(le_value(digits), digits.len()) =~= digits);
    }
}

/// Two's complement on `n` bytes and its inverse, on the integers that `n`
/// bytes can hold.
pub proof fn lemma_twos_complement_inverse(v: int, n: nat)
    requires
        n > 0,
        -radix_pow(n) <= 2 * v < radix_pow(n),
    ensures
        twos_complement(v, n) < radix_pow(n),
        signed_value(twos_complement(v, n), n) == v,
{
}

/// The inverse of two's complement on `n` bytes, and two's complement, on
/// the natural numbers below `radix_pow(n)`.
pub proof fn lemma_signed_value_inverse(u: nat, n: nat)
    requires
        n > 0,
        u < radix_pow(n),
    ensures
        -radix_pow(n) <= 2 * signed_value(u, n) < radix_pow(n),
        twos_complement(signed_value(u, n), n) == u,
{
}

/// The digits of zero are all zero.
pub proof fn lemma_le_digits_of_zero(n: nat)
    ensures
        le_digits(0, n) == Seq::new(n, |i: int| 0u8),
    decreases n,
{
    if n > 0 {
        lemma_le_digits_of_zero((n - 1) as nat);
    }
    assert(le_digits(0, n) =~= Seq::new(n, |i: int| 0u8));
}

/// Appends the `n` lowest base-256 digits of `v` to `out`, least significant
/// first.
pub fn push_le_digits(v: u64, n: usize, out: &mut Vec<u8>)
    ensures
        final(out)@ == old(out)@ + le_digits(v as nat, n as nat),
{
    let mut rest: u64 = v;
    let mut k: usize = 0;
    while k < n
        invariant
            k <= n,
            old(out)@ + le_digits(v as nat, n as nat) == out@ + le_digits(
                rest as nat,
                (n - k) as nat,
            ),
        decreases n - k,
    {
        let digit: u8 = (rest % 256) as u8;
        proof {
            let tail = le_digits((rest / 256) as nat, (n - k - 1) as nat);
            assert(le_digits(rest as nat, (n - k) as nat) == seq![digit] + tail);
            assert(out@ + (seq![digit] + tail) =~= out@.push(digit) + tail);
        }
        out.push(digit);
        rest = rest / 256;
        k = k + 1;
    }
    assert(out@ + le_digits(rest as nat, 0) =~= out@);
}

/// Reads the number whose base-256 digits, least significant first, are the
/// `n` bytes of `bytes` from index `at` on.
pub fn read_le_digits(bytes: &[u8], at: usize, n: usize) -> (v: u64)
    requires
        n <= 8,
        at + n <= bytes.len(),
    ensures
        v == le_value(bytes@.subrange(at as int, at + n)),
{
    let mut v: u64 = 0;
    let mut k: usize = n;
    while k > 0
        invariant
            k <= n <= 8,
            at + n <= bytes.len(),
            v == le_value(bytes@.subrange(at + k, at + n)),
        decreases k,
    {
        k = k - 1;
        let digit: u8 = bytes[at + k];
        proof {
            let high = bytes@.subrange(at + k + 1, at + n);
            let all = bytes@.subrange(at + k, at + n);
            assert(all.drop_first() =~= high);
            assert(all[0] == digit);
            lemma_le_value_bound(high);
            lemma_radix_pow_monotonic(all.len(), 8);
            lemma_radix_pow_values();
        }
        v = v * 256 + digit as u64;
    }
    v
}

} // verus!
