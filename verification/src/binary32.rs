//! Single-precision floating-point numbers, handled by their bit patterns.
//!
//! Motor power and battery voltage are IEEE 754 binary32 numbers. The
//! driver never computes with floating-point instructions: it reads and
//! builds the 32-bit patterns with integer arithmetic, and this module says in
//! terms of integers which number a pattern stands for and how a result is
//! rounded.
use vstd::arithmetic::div_mod::{
    lemma_div_denominator, lemma_div_is_ordered, lemma_div_multiples_vanish_quotient,
    lemma_fundamental_div_mod, lemma_truncate_middle,
};
use vstd::arithmetic::mul::{lemma_mul_inequality, lemma_mul_strict_inequality};
use vstd::arithmetic::power2::{
    lemma2_to64, lemma2_to64_rest, lemma_pow2_adds, lemma_pow2_pos,
    lemma_pow2_strictly_increases, lemma_pow2_unfold, pow2,
};
use vstd::prelude::*;

verus! {

/// The bit that holds the sign.
pub const SIGN_BIT: u32 = 0x8000_0000;

/// The weight of the leading bit of a normal number's significand, which the
/// pattern does not store.
pub const HIDDEN_BIT: u32 = 0x0080_0000;

/// The pattern of positive infinity; every pattern above it, the sign bit
/// left aside, is a NaN.
pub const INFINITY: u32 = 0x7F80_0000;

/// The pattern of `1.0`.
pub const ONE: u32 = 0x3F80_0000;

/// The pattern of `-1.0`.
pub const MINUS_ONE: u32 = 0xBF80_0000;

/// Whether the sign bit of the pattern is set.
pub open spec fn sign_set(bits: u32) -> bool {
    bits >= SIGN_BIT
}

/// The pattern without its sign bit: the pattern of the absolute value.
pub open spec fn magnitude(bits: u32) -> u32 {
    if bits >= SIGN_BIT {
        (bits - SIGN_BIT) as u32
    } else {
        bits
    }
}

/// The pattern with its sign bit flipped: the pattern of the negated number.
pub open spec fn negated(bits: u32) -> u32 {
    if bits >= SIGN_BIT {
        (bits - SIGN_BIT) as u32
    } else {
        (bits + SIGN_BIT) as u32
    }
}

/// Whether the pattern stands for no number at all.
pub open spec fn is_nan(bits: u32) -> bool {
    magnitude(bits) > INFINITY
}

/// The biased exponent that the pattern stores.
pub open spec fn exponent(bits: u32) -> nat {
    (magnitude(bits) / HIDDEN_BIT) as nat
}

/// The fraction bits that the pattern stores.
pub open spec fn fraction(bits: u32) -> nat {
    (magnitude(bits) % HIDDEN_BIT) as nat
}

/// The absolute value of the number, counted in units of 2^-149, the
/// smallest step between two binary32 numbers. Every finite binary32 number
/// is a whole multiple of that unit. Infinity, which has no such value, gets
/// one above every finite number, so that comparisons come out right.
pub open spec fn scaled_magnitude(bits: u32) -> nat {
    if exponent(bits) == 0 {
        fraction(bits)
    } else {
        ((HIDDEN_BIT + fraction(bits)) * pow2((exponent(bits) - 1) as nat)) as nat
    }
}

/// The number itself in units of 2^-149. Both zeros give 0.
pub open spec fn scaled(bits: u32) -> int {
    if sign_set(bits) {
        -(scaled_magnitude(bits) as int)
    } else {
        scaled_magnitude(bits) as int
    }
}

/// The number one, in units of 2^-149.
pub open spec fn scaled_one() -> nat {
    pow2(149)
}

/// The whole number nearest to `n / d`; of two that are equally near, the
/// even one.
pub open spec fn nearest_even(n: nat, d: nat) -> nat {
    let q = n / d;
    let r = n % d;
    if 2 * r < d || (2 * r == d && q % 2 == 0) {
        q
    } else {
        q + 1
    }
}

/// By how many bits `n` is longer than the 24 bits of a significand.
pub open spec fn excess_bits(n: nat) -> nat
    decreases n,
{
    if n < 0x100_0000 {
        0
    } else {
        1 + excess_bits(n / 2)
    }
}

/// `n / d` rounded to 24 significant bits, ties to even: the result of a
/// binary32 operation whose exact result is `n / d`, counted in a unit in
/// which every candidate is a whole number.
pub open spec fn rounded(n: nat, d: nat) -> nat {
    let k = excess_bits(n / d);
    nearest_even(n, d * pow2(k)) * pow2(k)
}

/// The pattern of 1.0 stands for one.
pub proof fn lemma_scaled_one()
    ensures
        scaled_magnitude(ONE) == scaled_one(),
        scaled_magnitude(MINUS_ONE) == scaled_one(),
        scaled(ONE) == scaled_one(),
        scaled(MINUS_ONE) == -(scaled_one() as int),
{
    lemma2_to64();
    lemma_pow2_adds(23, 126);
    assert(exponent(ONE) == 127);
    assert(fraction(ONE) == 0);
    assert(exponent(MINUS_ONE) == 127);
    assert(fraction(MINUS_ONE) == 0);
}

/// Patterns are ordered as the absolute values they stand for: one pattern
/// without its sign is at most another exactly if its scaled magnitude is.
pub proof fn lemma_magnitude_order(a: u32, b: u32)
    ensures
        magnitude(a) <= magnitude(b) <==> scaled_magnitude(a) <= scaled_magnitude(b),
        magnitude(a) == magnitude(b) <==> scaled_magnitude(a) == scaled_magnitude(b),
{
    lemma_magnitude_strict(a, b);
    lemma_magnitude_strict(b, a);
}

proof fn lemma_magnitude_strict(a: u32, b: u32)
    ensures
        magnitude(a) < magnitude(b) ==> scaled_magnitude(a) < scaled_magnitude(b),
{
    if magnitude(a) < magnitude(b) {
        let ea = exponent(a);
        let eb = exponent(b);
        let fa = fraction(a);
        let fb = fraction(b);
        assert(magnitude(a) == ea * 0x80_0000 + fa);
        assert(magnitude(b) == eb * 0x80_0000 + fb);
        assert(ea <= eb);
        if ea == eb {
            if ea != 0 {
                lemma_pow2_pos((ea - 1) as nat);
                lemma_mul_strict_inequality(
                    (HIDDEN_BIT + fa) as int,
                    (HIDDEN_BIT + fb) as int,
                    pow2((ea - 1) as nat) as int,
                );
            }
        } else if ea == 0 {
            lemma_pow2_pos((eb - 1) as nat);
            lemma_mul_inequality(1, pow2((eb - 1) as nat) as int, (HIDDEN_BIT + fb) as int);
            assert(scaled_magnitude(b) >= HIDDEN_BIT + fb) by (nonlinear_arith)
                requires
                    scaled_magnitude(b) == (HIDDEN_BIT + fb) * pow2((eb - 1) as nat),
                    pow2((eb - 1) as nat) >= 1,
            ;
        } else {
            // a's value is below 2^(ea + 23), b's is at least that
            let pa = pow2((ea - 1) as nat);
            let pb = pow2((eb - 1) as nat);
            lemma_pow2_pos((ea - 1) as nat);
            if ea < eb - 1 {
                lemma_pow2_strictly_increases(ea as nat, (eb - 1) as nat);
            }
            lemma_pow2_unfold(ea as nat);
            assert(pb >= 2 * pa);
            assert((HIDDEN_BIT + fa) * pa < (HIDDEN_BIT + fb) * pb) by (nonlinear_arith)
                requires
                    fa < 0x80_0000,
                    pb >= 2 * pa,
                    pa > 0,
                    fb >= 0,
            ;
        }
    }
}

/// Whether the pattern stands for a number below zero. A NaN is below
/// nothing, and neither zero is below zero.
pub open spec fn below_zero(bits: u32) -> bool {
    !is_nan(bits) && scaled(bits) < 0
}

/// Tells whether the number is below zero.
pub fn is_negative(bits: u32) -> (negative: bool)
    ensures
        negative == below_zero(bits),
{
    proof {
        lemma_magnitude_order(bits, 0);
        assert(exponent(0) == 0 && fraction(0) == 0);
    }
    bits > SIGN_BIT && bits - SIGN_BIT <= INFINITY
}

/// Halving a number that is too long for a significand takes one bit off its
/// excess.
proof fn lemma_excess_bits_step(x: nat, k: nat)
    requires
        x / pow2(k) >= 0x100_0000,
    ensures
        excess_bits(x / pow2(k)) == 1 + excess_bits(x / pow2(k + 1)),
{
    lemma_pow2_pos(k);
    lemma_pow2_unfold(k + 1);
    lemma_div_denominator(x as int, pow2(k) as int, 2);
}

/// A number that fits a significand is not rounded.
pub proof fn lemma_rounded_exact(n: nat)
    requires
        n < 0x100_0000,
    ensures
        rounded(n, 1) == n,
{
    lemma2_to64();
    assert(n / 1 == n);
    assert(excess_bits(n) == 0);
    assert(1 * pow2(0) == 1);
    assert(n % 1 == 0);
    assert(nearest_even(n, 1) == n);
}

/// Rounding commutes with doubling: a significand keeps its bits when the
/// exponent goes up by one. This holds wherever the quotient has the 24 bits
/// of a significand to begin with, and of every whole number.
pub proof fn lemma_rounded_doubles(n: nat, d: nat)
    requires
        d > 0,
        d == 1 || n / d >= 0x80_0000,
    ensures
        rounded(2 * n, d) == 2 * rounded(n, d),
{
    lemma2_to64();
    if n / d < 0x80_0000 {
        assert(n / 1 == n);
        lemma_rounded_exact(n);
        lemma_rounded_exact(2 * n);
    } else {
        let k = excess_bits(n / d);
        let pk = pow2(k);
        let step = d * pk;
        let m = nearest_even(n, step);
        lemma_pow2_pos(k);
        lemma_pow2_unfold(k + 1);
        assert(pow2(k + 1) == 2 * pk);
        assert(step > 0) by (nonlinear_arith)
            requires
                step == d * pk,
                d > 0,
                pk > 0,
        ;
        assert(d * (2 * pk) == 2 * step) by (nonlinear_arith)
            requires
                step == d * pk,
        ;
        assert((2 * n) / 2 == n);
        lemma_div_denominator((2 * n) as int, d as int, 2);
        lemma_div_denominator((2 * n) as int, 2, d as int);
        assert(((2 * n) / d) / 2 == n / d);
        assert(excess_bits((2 * n) / d) == 1 + excess_bits(((2 * n) / d) / 2));
        lemma_div_denominator((2 * n) as int, 2, step as int);
        lemma_truncate_middle(n as int, 2, step as int);
        assert((2 * n) / (2 * step) == n / step);
        assert((2 * n) % (2 * step) == 2 * (n % step));
        assert(nearest_even(2 * n, 2 * step) == m);
        assert(rounded(n, d) == m * pk);
        assert(rounded(2 * n, d) == m * (2 * pk));
        assert(m * (2 * pk) == 2 * (m * pk)) by (nonlinear_arith);
    }
}

/// Rounding commutes with every power of two.
pub proof fn lemma_rounded_scales(n: nat, d: nat, j: nat)
    requires
        d > 0,
        d == 1 || n / d >= 0x80_0000,
    ensures
        rounded(n * pow2(j), d) == rounded(n, d) * pow2(j),
    decreases j,
{
    lemma2_to64();
    if j > 0 {
        lemma_rounded_scales(n, d, (j - 1) as nat);
        lemma_pow2_unfold(j);
        let h = pow2((j - 1) as nat);
        lemma_pow2_pos((j - 1) as nat);
        if d != 1 {
            lemma_mul_inequality(1, h as int, n as int);
            assert(n * h >= n) by (nonlinear_arith)
                requires
                    h >= 1,
            ;
            lemma_div_is_ordered(n as int, (n * h) as int, d as int);
        }
        lemma_rounded_doubles(n * h, d);
        assert(n * (2 * h) == 2 * (n * h)) by (nonlinear_arith);
        assert(rounded(n, d) * (2 * h) == 2 * (rounded(n, d) * h)) by (nonlinear_arith);
        assert(rounded(n * pow2(j), d) == rounded(2 * (n * h), d));
    } else {
        assert(n * pow2(0) == n);
        assert(rounded(n, d) * pow2(0) == rounded(n, d));
    }
}

/// A quotient is rounded, not its numerator and denominator: what both are
/// multiplied by makes no difference.
pub proof fn lemma_rounded_cancels(n: nat, d: nat, c: nat)
    requires
        d > 0,
        c > 0,
    ensures
        rounded(n * c, d * c) == rounded(n, d),
{
    let k = excess_bits(n / d);
    let pk = pow2(k);
    let step = d * pk;
    lemma_pow2_pos(k);
    assert(step > 0) by (nonlinear_arith)
        requires
            step == d * pk,
            d > 0,
            pk > 0,
    ;
    assert(n * c == c * n) by (nonlinear_arith);
    assert(d * c == c * d) by (nonlinear_arith);
    assert((d * c) * pk == c * step) by (nonlinear_arith)
        requires
            step == d * pk,
    ;
    lemma_div_multiples_vanish_quotient(c as int, n as int, d as int);
    assert((n * c) / (d * c) == n / d);
    lemma_div_multiples_vanish_quotient(c as int, n as int, step as int);
    lemma_truncate_middle(n as int, c as int, step as int);
    let q = n / step;
    let r = n % step;
    assert((c * n) / (c * step) == q);
    assert((c * n) % (c * step) == c * r);
    assert(2 * (c * r) < c * step <==> 2 * r < step) by (nonlinear_arith)
        requires
            c > 0,
    ;
    assert(2 * (c * r) == c * step <==> 2 * r == step) by (nonlinear_arith)
        requires
            c > 0,
    ;
    assert(nearest_even(c * n, c * step) == nearest_even(n, step));
}

/// `2^exponent`, for an exponent that a `u64` can hold.
pub fn power_of_two(exponent: u32) -> (power: u64)
    requires
        exponent < 64,
    ensures
        power == pow2(exponent as nat),
{
    let mut power: u64 = 1;
    let mut done: u32 = 0;
    proof {
        lemma2_to64();
    }
    while done < exponent
        invariant
            done <= exponent < 64,
            power == pow2(done as nat),
        decreases exponent - done,
    {
        proof {
            lemma_pow2_unfold((done + 1) as nat);
            lemma2_to64_rest();
            if done + 1 < 63 {
                lemma_pow2_strictly_increases((done + 1) as nat, 63);
            }
        }
        power = power * 2;
        done = done + 1;
    }
    power
}

/// A whole number with at most 24 significant bits: `digits * 2^exponent`.
#[derive(Clone, Copy, Debug, PartialEq, Eq)]
pub struct Significand {
    pub digits: u64,
    pub exponent: u32,
}

impl Significand {
    /// The number that is written.
    pub open spec fn value(self) -> nat {
        self.digits as nat * pow2(self.exponent as nat)
    }

    /// The number that is written.
    pub fn to_u64(self) -> (whole: u64)
        requires
            self.digits <= 0x100_0000,
            self.exponent < 40,
        ensures
            whole == self.value(),
    {
        let power = power_of_two(self.exponent);
        proof {
            lemma2_to64_rest();
            if self.exponent < 39 {
                lemma_pow2_strictly_increases(self.exponent as nat, 39);
            }
            assert(self.digits * power <= 0x100_0000 * 0x80_0000_0000) by (nonlinear_arith)
                requires
                    self.digits <= 0x100_0000,
                    power <= 0x80_0000_0000,
            ;
        }
        self.digits * power
    }
}

/// `n / d` rounded to 24 significant bits, ties to even.
pub fn round_to_significand(n: u64, d: u64) -> (r: Significand)
    requires
        0 < d <= 0x400,
        n < 0x8000_0000_0000_0000,
    ensures
        r.value() == rounded(n as nat, d as nat),
        r.exponent == excess_bits(n as nat / d as nat),
        r.exponent < 40,
        r.digits <= 0x100_0000,
        r.exponent > 0 ==> r.digits >= 0x80_0000,
        r.exponent == 0 ==> n / d <= r.digits,
        r.value() <= n / d + 1 + n / d / 0x80_0000,
{
    let x: u64 = n / d;
    let mut k: u32 = 0;
    let mut p: u64 = 1;
    proof {
        lemma2_to64();
        assert(n / d <= n) by (nonlinear_arith)
            requires
                d > 0,
        ;
    }
    while x / p >= 0x100_0000
        invariant
            x < 0x8000_0000_0000_0000,
            k < 40,
            p == pow2(k as nat),
            p > 0,
            p * 0x80_0000 <= x || k == 0,
            excess_bits(x as nat) == k + excess_bits(x as nat / pow2(k as nat)),
        decreases x / p,
    {
        proof {
            lemma_excess_bits_step(x as nat, k as nat);
            lemma_pow2_unfold((k + 1) as nat);
            lemma_div_denominator(x as int, p as int, 2);
            lemma_fundamental_div_mod(x as int, p as int);
            assert(p * 0x100_0000 <= x) by (nonlinear_arith)
                requires
                    x / p >= 0x100_0000,
                    x == p * (x / p) + x % p,
                    x % p >= 0,
                    p > 0,
            ;
            if k == 39 {
                lemma_pow2_adds(39, 24);
                lemma2_to64();
                lemma2_to64_rest();
            }
        }
        p = p * 2;
        k = k + 1;
    }
    assert(excess_bits(x as nat) == k);
    proof {
        assert(0 < d * p <= 0x400 * p) by (nonlinear_arith)
            requires
                0 < d <= 0x400,
                p > 0,
        ;
    }
    let step: u64 = d * p;
    let q: u64 = n / step;
    let rest: u64 = n % step;
    let nearest: u64 = if 2 * rest < step || (2 * rest == step && q % 2 == 0) {
        q
    } else {
        q + 1
    };
    proof {
        lemma_div_denominator(n as int, d as int, p as int);
        assert(q == x / p);
        assert(nearest == nearest_even(n as nat, d as nat * pow2(k as nat)));
        lemma_fundamental_div_mod(x as int, p as int);
        assert((q + 1) * p <= x + p) by (nonlinear_arith)
            requires
                x == p * q + x % p,
                x % p >= 0,
        ;
        assert(nearest * p <= (q + 1) * p) by (nonlinear_arith)
            requires
                nearest <= q + 1,
                p > 0,
        ;
        if k > 0 {
            assert(q >= 0x80_0000) by (nonlinear_arith)
                requires
                    p * 0x80_0000 <= x,
                    x == p * q + x % p,
                    0 <= x % p < p,
            ;
        } else {
            assert(x / 1 == x);
        }
    }
    Significand { digits: nearest, exponent: k }
}

/// The pattern of the number that is zero or more and counts `value` units
/// of 2^-149, where there is such a pattern.
pub open spec fn pattern_of(value: nat) -> u32 {
    choose|bits: u32| bits < SIGN_BIT && scaled_magnitude(bits) == value
}

/// No two patterns of numbers from zero on stand for the same number.
pub proof fn lemma_pattern_of(bits: u32)
    requires
        bits < SIGN_BIT,
    ensures
        pattern_of(scaled_magnitude(bits)) == bits,
{
    let found = pattern_of(scaled_magnitude(bits));
    lemma_magnitude_order(found, bits);
}

/// The pattern of the number `number.value() * 2^lift` units of 2^-149, for a
/// number that is zero or has its 24 bits, and whose size a normal binary32
/// number can have.
pub fn pack(number: Significand, lift: u32) -> (bits: u32)
    requires
        number.digits == 0 || 0x80_0000 <= number.digits <= 0x100_0000,
        number.exponent + lift < 253,
    ensures
        bits < INFINITY,
        scaled_magnitude(bits) == number.value() * pow2(lift as nat),
        bits == pattern_of(number.value() * pow2(lift as nat)),
{
    if number.digits == 0 {
        proof {
            assert(exponent(0) == 0 && fraction(0) == 0);
            assert(number.value() * pow2(lift as nat) == 0) by (nonlinear_arith)
                requires
                    number.value() == 0 * pow2(number.exponent as nat),
            ;
            lemma_pattern_of(0);
        }
        return 0;
    }
    let carried: bool = number.digits == 0x100_0000;
    let digits: u32 = if carried {
        HIDDEN_BIT
    } else {
        number.digits as u32
    };
    let stored_exponent: u32 = if carried {
        number.exponent + lift + 2
    } else {
        number.exponent + lift + 1
    };
    let bits: u32 = stored_exponent * HIDDEN_BIT + (digits - HIDDEN_BIT);
    proof {
        let e = number.exponent as nat;
        let l = lift as nat;
        assert(magnitude(bits) == bits);
        assert(exponent(bits) == stored_exponent);
        assert(fraction(bits) == digits - HIDDEN_BIT);
        lemma_pow2_adds(e, l);
        assert(number.value() * pow2(l) == number.digits * pow2(e + l)) by (nonlinear_arith)
            requires
                number.value() == number.digits * pow2(e),
                pow2(e + l) == pow2(e) * pow2(l),
        ;
        if carried {
            lemma_pow2_unfold(e + l + 1);
            assert(0x100_0000 * pow2(e + l) == 0x80_0000 * (2 * pow2(e + l))) by (nonlinear_arith);
        }
        assert(scaled_magnitude(bits) == number.value() * pow2(l));
        lemma_pattern_of(bits);
    }
    bits
}

} // verus!
