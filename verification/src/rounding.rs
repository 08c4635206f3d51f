//! Integer rounding, and the rounding of binary floating-point arithmetic.

use vstd::arithmetic::power2::pow2;
use vstd::prelude::*;

verus! {

/// The integer nearest to `num / den`, and of two that are equally near the even
/// one.
pub open spec fn half_even(num: nat, den: nat) -> nat {
    let quotient = num / den;
    let remainder = num % den;
    if 2 * remainder < den || (2 * remainder == den && quotient % 2 == 0) {
        quotient
    } else {
        quotient + 1
    }
}

/// The integer nearest to `num / den`, and of two that are equally near the even
/// one.
pub fn divide_half_even(num: u128, den: u128) -> (r: u128)
    requires
        0 < den,
        num < u128::MAX,
    ensures
        r == half_even(num as nat, den as nat),
{
    let quotient: u128 = num / den;
    let remainder: u128 = num % den;
    proof {
        vstd::arithmetic::div_mod::lemma_div_nonincreasing(num as int, den as int);
    }
    let above: u128 = den - remainder;
    if remainder < above || (remainder == above && quotient % 2 == 0) {
        quotient
    } else {
        quotient + 1
    }
}

/// A quotient below one half rounds to zero.
pub proof fn lemma_half_even_small(num: nat, den: nat)
    requires
        2 * num < den,
    ensures
        half_even(num, den) == 0,
{
    vstd::arithmetic::div_mod::lemma_basic_div(num as int, den as int);
    vstd::arithmetic::div_mod::lemma_small_mod(num, den);
}

/// A rounded quotient is not further than one half from the quotient.
pub proof fn lemma_half_even_near(num: nat, den: nat)
    requires
        0 < den,
    ensures
        2 * num <= 2 * half_even(num, den) * den + den,
        2 * half_even(num, den) * den <= 2 * num + den,
{
    let quotient = num / den;
    let remainder = num % den;
    vstd::arithmetic::div_mod::lemma_fundamental_div_mod(num as int, den as int);
    assert(num == quotient * den + remainder) by (nonlinear_arith)
        requires
            num == den * quotient + remainder,
    ;
    assert((quotient + 1) * den == quotient * den + den) by (nonlinear_arith);
    assert(2 * quotient * den == 2 * (quotient * den)) by (nonlinear_arith);
    assert(2 * (quotient + 1) * den == 2 * ((quotient + 1) * den)) by (nonlinear_arith);
}

/// Two to the power of `e`.
pub fn power_of_two(e: u32) -> (r: u128)
    requires
        e < 128,
    ensures
        r == pow2(e as nat),
{
    let mut r: u128 = 1;
    let mut i: u32 = 0;
    proof {
        vstd::arithmetic::power2::lemma2_to64();
        lemma_pow2_127();
    }
    while i < e
        invariant
            i <= e < 128,
            r == pow2(i as nat),
            pow2(127) == 0x8000_0000_0000_0000_0000_0000_0000_0000,
        decreases e - i,
    {
        proof {
            vstd::arithmetic::power2::lemma_pow2_unfold((i + 1) as nat);
            if i + 1 < 127 {
                vstd::arithmetic::power2::lemma_pow2_strictly_increases((i + 1) as nat, 127);
            }
        }
        r = r * 2;
        i = i + 1;
    }
    r
}

proof fn lemma_pow2_127()
    ensures
        pow2(127) == 0x8000_0000_0000_0000_0000_0000_0000_0000,
{
    vstd::arithmetic::power2::lemma2_to64();
    vstd::arithmetic::power2::lemma2_to64_rest();
    vstd::arithmetic::power2::lemma_pow2_adds(64, 63);
    assert(pow2(64) * pow2(63) == 0x8000_0000_0000_0000_0000_0000_0000_0000);
}

/// The integer part of the logarithm to base two.
pub open spec fn log2(n: nat) -> nat
    decreases n,
{
    if n < 2 {
        0
    } else {
        1 + log2(n / 2)
    }
}

/// A positive number lies between two neighbouring powers of two, and the lower
/// one has its logarithm as exponent.
pub proof fn lemma_log2_bounds(n: nat)
    requires
        0 < n,
    ensures
        pow2(log2(n)) <= n < pow2(log2(n) + 1),
    decreases n,
{
    vstd::arithmetic::power2::lemma2_to64();
    if n >= 2 {
        lemma_log2_bounds(n / 2);
        vstd::arithmetic::power2::lemma_pow2_unfold(log2(n));
        vstd::arithmetic::power2::lemma_pow2_unfold(log2(n) + 1);
    }
}

/// The integer part of the logarithm to base two.
pub fn log2_of(n: u128) -> (r: u32)
    ensures
        r == log2(n as nat),
        r < 128,
{
    let mut rest: u128 = n;
    let mut r: u32 = 0;
    proof {
        vstd::arithmetic::power2::lemma2_to64();
        lemma_pow2_127();
        vstd::arithmetic::power2::lemma_pow2_unfold(128);
        assert(pow2(r as nat) == 1);
    }
    while rest >= 2
        invariant
            r + log2(rest as nat) == log2(n as nat),
            n > 0 ==> rest * pow2(r as nat) <= n,
            n > 0 ==> rest > 0,
            n == 0 ==> rest == 0,
            r < 128,
            pow2(127) == 0x8000_0000_0000_0000_0000_0000_0000_0000,
        decreases rest,
    {
        proof {
            vstd::arithmetic::power2::lemma_pow2_unfold((r + 1) as nat);
            let p = pow2(r as nat);
            let half = (rest / 2) as nat;
            assert(half * (2 * p) <= rest * p) by (nonlinear_arith)
                requires
                    2 * half <= rest,
            ;
            if r >= 127 {
                assert(rest * p > u128::MAX) by (nonlinear_arith)
                    requires
                        rest >= 2,
                        p >= 0x8000_0000_0000_0000_0000_0000_0000_0000,
                ;
            }
        }
        rest = rest / 2;
        r = r + 1;
    }
    r
}

/// `num / den` rounded to the nearest number that is a multiple of the last place
/// of a 24-bit significand, and of two that are equally near to the even one: how
/// single-precision arithmetic rounds a result that is neither tiny nor huge.
pub open spec fn nearest_single(num: nat, den: nat) -> nat {
    if num == 0 {
        0
    } else {
        let unit = pow2((log2(num / den) - 23) as nat);
        half_even(num, den * unit) * unit
    }
}

/// Rounds `num / den` as [`nearest_single`] says.
pub fn round_single(num: u128, den: u128) -> (r: u128)
    requires
        0 < den,
        num == 0 || num / den >= 0x80_0000,
        num < 0x2000_0000_0000_0000_0000_0000_0000_0000,
    ensures
        r == nearest_single(num as nat, den as nat),
        r <= 2 * (num / den) + 2,
        num / den <= 2 * r,
{
    if num == 0 {
        return 0;
    }
    let q: u128 = num / den;
    let j: u32 = log2_of(q);
    proof {
        lemma_log2_bounds(q as nat);
        vstd::arithmetic::power2::lemma2_to64();
        if j < 23 {
            if j + 1 < 23 {
                vstd::arithmetic::power2::lemma_pow2_strictly_increases((j + 1) as nat, 23);
            }
        }
    }
    let unit: u128 = power_of_two(j - 23);
    proof {
        vstd::arithmetic::power2::lemma_pow2_adds(23, (j - 23) as nat);
        vstd::arithmetic::div_mod::lemma_fundamental_div_mod(num as int, den as int);
        assert(den * unit <= num) by (nonlinear_arith)
            requires
                num == den * q + num % den,
                num % den >= 0,
                0x80_0000 * unit <= q,
                den > 0,
                unit >= 0,
        ;
    }
    let step: u128 = den * unit;
    proof {
        vstd::arithmetic::power2::lemma_pow2_pos((j - 23) as nat);
        assert(step > 0) by (nonlinear_arith)
            requires
                step == den * unit,
                den > 0,
                unit > 0,
        ;
    }
    let m: u128 = divide_half_even(num, step);
    proof {
        let whole = num as int / step as int;
        vstd::arithmetic::div_mod::lemma_div_denominator(num as int, den as int, unit as int);
        assert(whole == q as int / unit as int);
        vstd::arithmetic::div_mod::lemma_fundamental_div_mod(q as int, unit as int);
        assert(whole * unit <= q) by (nonlinear_arith)
            requires
                q as int == unit as int * whole + q as int % unit as int,
                q as int % unit as int >= 0,
        ;
        assert(m * unit <= whole * unit + unit) by (nonlinear_arith)
            requires
                m <= whole + 1,
                unit > 0,
        ;
        assert(m * unit <= 2 * q);
        assert(q <= 2 * (m * unit)) by (nonlinear_arith)
            requires
                q as int == unit as int * whole + q as int % unit as int,
                q as int % (unit as int) < unit,
                whole <= m,
                2 * unit <= q,
        ;
        assert(q <= num) by {
            vstd::arithmetic::div_mod::lemma_div_nonincreasing(num as int, den as int);
        }
    }
    m * unit
}

} // verus!
