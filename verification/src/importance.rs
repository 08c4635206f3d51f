//! The importance of a fact: a single-precision number, held by its bit pattern.

use crate::rounding::{
    divide_half_even, half_even, lemma_half_even_small, log2, log2_of, power_of_two,
};
use crate::text::{append_decimal, decimal, digit};
use vstd::arithmetic::power2::pow2;
use vstd::prelude::*;

verus! {

/// The bit pattern of positive infinity.
pub const INFINITE: u32 = 0x7f80_0000;

/// The bit pattern of one.
pub const ONE: u32 = 0x3f80_0000;

/// The bit pattern of a number that is none.
pub const NOT_A_NUMBER: u32 = 0x7fc0_0000;

/// An IEEE 754 single-precision number, held by its bit pattern.
#[derive(Debug, Clone, Copy, PartialEq, Eq, Structural)]
pub struct Importance {
    pub bits: u32,
}

impl Importance {
    /// The pattern without its sign.
    pub open spec fn magnitude(self) -> nat {
        (self.bits % 0x8000_0000) as nat
    }

    pub open spec fn is_negative(self) -> bool {
        self.bits >= 0x8000_0000
    }

    /// Whether the pattern stands for no number.
    pub open spec fn is_nan(self) -> bool {
        self.magnitude() > INFINITE
    }

    /// An integer by which the numbers are ordered. Both zeros have rank zero.
    pub open spec fn rank(self) -> int {
        if self.is_negative() {
            -(self.magnitude() as int)
        } else {
            self.magnitude() as int
        }
    }

    /// Whether this is a number at least as large as `other`.
    pub open spec fn ge(self, other: Importance) -> bool {
        !self.is_nan() && !other.is_nan() && self.rank() >= other.rank()
    }

    /// Whether this is a number larger than `other`.
    pub open spec fn gt(self, other: Importance) -> bool {
        !self.is_nan() && !other.is_nan() && self.rank() > other.rank()
    }

    /// Whether the two are numbers of the same value, or one of them is no number.
    pub open spec fn ties(self, other: Importance) -> bool {
        self.is_nan() || other.is_nan() || self.rank() == other.rank()
    }

    /// The nearest number from zero to one.
    pub open spec fn clamped(self) -> Importance {
        if self.is_nan() {
            self
        } else if self.rank() < 0 {
            Importance { bits: 0 }
        } else if self.rank() > ONE {
            Importance { bits: ONE }
        } else {
            self
        }
    }

    pub fn not_a_number(self) -> (r: bool)
        ensures
            r == self.is_nan(),
    {
        self.bits % 0x8000_0000 > INFINITE
    }

    fn rank_of(self) -> (r: i64)
        ensures
            r == self.rank(),
    {
        let magnitude: u32 = self.bits % 0x8000_0000;
        if self.bits >= 0x8000_0000 {
            -(magnitude as i64)
        } else {
            magnitude as i64
        }
    }

    /// Whether this is a number at least as large as `other`.
    pub fn at_least(self, other: Importance) -> (r: bool)
        ensures
            r == self.ge(other),
    {
        !self.not_a_number() && !other.not_a_number() && self.rank_of() >= other.rank_of()
    }

    /// Whether this is a number larger than `other`.
    pub fn exceeds(self, other: Importance) -> (r: bool)
        ensures
            r == self.gt(other),
    {
        !self.not_a_number() && !other.not_a_number() && self.rank_of() > other.rank_of()
    }

    /// The nearest number from zero to one. A pattern that stands for no number
    /// stays as it is.
    pub fn clamp_to_unit(self) -> (r: Importance)
        ensures
            r == self.clamped(),
    {
        if self.not_a_number() {
            self
        } else if self.rank_of() < 0 {
            Importance { bits: 0 }
        } else if self.rank_of() > ONE as i64 {
            Importance { bits: ONE }
        } else {
            self
        }
    }

    /// The single-precision number nearest to a whole number.
    pub fn of_integer(n: u64, negative: bool) -> (r: Importance)
        ensures
            r.bits == single_of_integer(n as nat) + (if negative {
                0x8000_0000int
            } else {
                0int
            }),
    {
        proof {
            vstd::arithmetic::power2::lemma2_to64();
            vstd::arithmetic::power2::lemma2_to64_rest();
        }
        let sign: u32 = if negative {
            0x8000_0000
        } else {
            0
        };
        if n == 0 {
            return Importance { bits: sign };
        }
        let j: u32 = log2_of(n as u128);
        proof {
            crate::rounding::lemma_log2_bounds(n as nat);
            if j >= 64 {
                if j > 64 {
                    vstd::arithmetic::power2::lemma_pow2_strictly_increases(64, j as nat);
                }
            }
            vstd::arithmetic::power2::lemma_pow2_pos(j as nat);
        }
        let unit: u128 = power_of_two(j);
        let m: u128 = divide_half_even(n as u128 * 0x80_0000, unit);
        proof {
            vstd::arithmetic::power2::lemma_pow2_unfold((j + 1) as nat);
            assert(m <= 0x100_0000) by {
                let num = n * 0x80_0000;
                crate::rounding::lemma_half_even_near(num as nat, unit as nat);
                assert(m <= 0x100_0000) by (nonlinear_arith)
                    requires
                        2 * m * unit <= 2 * num + unit,
                        num < 0x100_0000 * unit,
                        unit > 0,
                ;
            }
        }
        let bits: u32 = (j + 126) * 0x80_0000 + m as u32;
        Importance { bits: bits + sign }
    }

    /// The single-precision number nearest to a double-precision one, which is
    /// given by its bit pattern.
    pub fn of_double(bits: u64) -> (r: Importance)
        ensures
            r.bits == single_of_double((bits % 0x8000_0000_0000_0000) as nat) + (if bits
                >= 0x8000_0000_0000_0000 {
                0x8000_0000int
            } else {
                0int
            }),
    {
        let sign: u32 = if bits >= 0x8000_0000_0000_0000 {
            0x8000_0000
        } else {
            0
        };
        let magnitude: u64 = bits % 0x8000_0000_0000_0000;
        let exponent: u64 = magnitude / 0x10_0000_0000_0000;
        let fraction: u64 = magnitude % 0x10_0000_0000_0000;
        if magnitude > 0x7ff0_0000_0000_0000 {
            Importance { bits: NOT_A_NUMBER + sign }
        } else if exponent >= 897 {
            let shifted: u64 = magnitude - 896 * 0x10_0000_0000_0000;
            let m: u128 = divide_half_even(shifted as u128, 0x2000_0000);
            if m >= INFINITE as u128 {
                Importance { bits: INFINITE + sign }
            } else {
                Importance { bits: m as u32 + sign }
            }
        } else if exponent <= 872 {
            Importance { bits: sign }
        } else {
            let unit: u128 = power_of_two((926 - exponent) as u32);
            proof {
                vstd::arithmetic::power2::lemma2_to64();
                vstd::arithmetic::power2::lemma_pow2_pos((926 - exponent) as nat);
                if exponent < 896 {
                    vstd::arithmetic::power2::lemma_pow2_strictly_increases(
                        30,
                        (926 - exponent) as nat,
                    );
                }
            }
            let num: u128 = 0x10_0000_0000_0000 + fraction as u128;
            let m: u128 = divide_half_even(num, unit);
            proof {
                crate::rounding::lemma_half_even_near(num as nat, unit as nat);
                assert(m <= 0x80_0000) by (nonlinear_arith)
                    requires
                        2 * m * unit <= 2 * num + unit,
                        num < 0x20_0000_0000_0000,
                        unit >= 0x4000_0000,
                ;
            }
            Importance { bits: m as u32 + sign }
        }
    }

    /// The number with two digits after the decimal point, rounded to the nearest,
    /// and of two that are equally near to the one with an even last digit.
    pub fn two_decimals(self) -> (r: String)
        ensures
            r@ == self.rendered(),
    {
        let magnitude: u32 = self.bits % 0x8000_0000;
        let mut out = String::new();
        if magnitude > INFINITE {
            out.append("NaN");
            assert(out@ =~= "NaN"@);
            return out;
        }
        if self.bits >= 0x8000_0000 {
            out.append("-");
            assert(out@ =~= "-"@);
        }
        let ghost sign = out@;
        if magnitude == INFINITE {
            out.append("inf");
            return out;
        }
        let exponent: u32 = magnitude / 0x80_0000;
        let fraction: u32 = magnitude % 0x80_0000;
        let whole: u128;
        let cents: u128;
        proof {
            vstd::arithmetic::power2::lemma2_to64();
            vstd::arithmetic::power2::lemma2_to64_rest();
        }
        if exponent >= 150 {
            let scale: u128 = power_of_two(exponent - 150);
            proof {
                if exponent < 254 {
                    vstd::arithmetic::power2::lemma_pow2_strictly_increases(
                        (exponent - 150) as nat,
                        104,
                    );
                }
                vstd::arithmetic::power2::lemma_pow2_adds(64, 40);
                assert(pow2(64) * pow2(40) == 0x100_0000_0000_0000_0000_0000_0000);
                assert((0x80_0000 + fraction) * scale <= 0xff_ffff
                    * 0x100_0000_0000_0000_0000_0000_0000) by (nonlinear_arith)
                    requires
                        fraction < 0x80_0000,
                        scale <= 0x100_0000_0000_0000_0000_0000_0000,
                ;
            }
            whole = (0x80_0000 + fraction as u128) * scale;
            cents = 0;
            assert(self.hundredths() == whole * 100);
        } else {
            let significand: u128 = if exponent == 0 {
                fraction as u128
            } else {
                0x80_0000 + fraction as u128
            };
            let places: u32 = if exponent == 0 {
                149
            } else {
                150 - exponent
            };
            let hundredths: u128;
            if places >= 64 {
                proof {
                    if places > 64 {
                        vstd::arithmetic::power2::lemma_pow2_strictly_increases(
                            64,
                            places as nat,
                        );
                    }
                    lemma_half_even_small((significand * 100) as nat, pow2(places as nat));
                }
                hundredths = 0;
            } else {
                proof {
                    vstd::arithmetic::power2::lemma_pow2_pos(places as nat);
                }
                hundredths = divide_half_even(significand * 100, power_of_two(places));
            }
            whole = hundredths / 100;
            cents = hundredths % 100;
        }
        append_decimal(&mut out, whole);
        out.append(".");
        append_decimal(&mut out, cents / 10);
        append_decimal(&mut out, cents % 10);
        proof {
            let h = self.hundredths();
            assert(h / 100 == whole);
            assert(h % 100 == cents);
            assert((h / 10) % 10 == cents / 10);
            assert(h % 10 == cents % 10);
            assert(out@ =~= sign + decimal(h / 100) + "."@ + seq![
                digit(((h / 10) % 10) as int),
                digit((h % 10) as int),
            ]);
        }
        out
    }

    /// The number in hundredths.
    pub open spec fn hundredths(self) -> nat {
        let exponent = self.magnitude() / 0x80_0000;
        let fraction = self.magnitude() % 0x80_0000;
        if exponent >= 150 {
            (0x80_0000 + fraction) * pow2((exponent - 150) as nat) * 100
        } else if exponent == 0 {
            half_even(fraction * 100, pow2(149))
        } else {
            half_even((0x80_0000 + fraction) * 100, pow2((150 - exponent) as nat))
        }
    }

    /// The number as text, with two digits after the decimal point.
    pub open spec fn rendered(self) -> Seq<char> {
        let sign = if self.is_negative() {
            "-"@
        } else {
            seq![]
        };
        let h = self.hundredths();
        if self.is_nan() {
            "NaN"@
        } else if self.magnitude() == INFINITE {
            sign + "inf"@
        } else {
            sign + decimal(h / 100) + "."@ + seq![
                digit(((h / 10) % 10) as int),
                digit((h % 10) as int),
            ]
        }
    }
}

/// The bit pattern of the single-precision number nearest to a whole number.
pub open spec fn single_of_integer(n: nat) -> nat {
    if n == 0 {
        0
    } else {
        (log2(n) + 126) * 0x80_0000 + half_even(n * 0x80_0000, pow2(log2(n)))
    }
}

/// The bit pattern of the single-precision number nearest to the double-precision
/// one with the given bit pattern, both without their signs.
pub open spec fn single_of_double(magnitude: nat) -> nat {
    let exponent = magnitude / 0x10_0000_0000_0000;
    let fraction = magnitude % 0x10_0000_0000_0000;
    if magnitude > 0x7ff0_0000_0000_0000 {
        NOT_A_NUMBER as nat
    } else if exponent >= 897 {
        let rounded = half_even((magnitude - 896 * 0x10_0000_0000_0000) as nat, 0x2000_0000);
        if rounded >= INFINITE {
            INFINITE as nat
        } else {
            rounded
        }
    } else if exponent <= 872 {
        0
    } else {
        half_even(0x10_0000_0000_0000 + fraction, pow2((926 - exponent) as nat))
    }
}

/// A whole number of 64 bits is near to a number that is not infinite.
pub proof fn lemma_integer_gives_a_number(n: nat)
    requires
        n <= u64::MAX,
    ensures
        single_of_integer(n) < INFINITE,
{
    if n > 0 {
        let j = log2(n);
        let unit = pow2(j);
        vstd::arithmetic::power2::lemma2_to64();
        vstd::arithmetic::power2::lemma2_to64_rest();
        vstd::arithmetic::power2::lemma_pow2_pos(j);
        vstd::arithmetic::power2::lemma_pow2_unfold(j + 1);
        crate::rounding::lemma_log2_bounds(n);
        if j >= 64 {
            if j > 64 {
                vstd::arithmetic::power2::lemma_pow2_strictly_increases(64, j);
            }
        }
        let num = n * 0x80_0000;
        let m = half_even(num, unit);
        crate::rounding::lemma_half_even_near(num, unit);
        assert(m <= 0x100_0000) by (nonlinear_arith)
            requires
                2 * m * unit <= 2 * num + unit,
                num < 0x100_0000 * unit,
                unit > 0,
        ;
    }
}

/// A double-precision number is near to a single-precision one, which may be infinite.
pub proof fn lemma_double_gives_a_number(magnitude: nat)
    requires
        magnitude <= 0x7ff0_0000_0000_0000,
    ensures
        single_of_double(magnitude) <= INFINITE,
{
    let exponent = magnitude / 0x10_0000_0000_0000;
    let fraction = magnitude % 0x10_0000_0000_0000;
    if 872 < exponent < 897 {
        let unit = pow2((926 - exponent) as nat);
        vstd::arithmetic::power2::lemma2_to64();
        vstd::arithmetic::power2::lemma_pow2_pos((926 - exponent) as nat);
        if exponent < 896 {
            vstd::arithmetic::power2::lemma_pow2_strictly_increases(30, (926 - exponent) as nat);
        }
        let num = 0x10_0000_0000_0000 + fraction;
        let m = half_even(num, unit);
        crate::rounding::lemma_half_even_near(num, unit);
        assert(m <= 0x80_0000) by (nonlinear_arith)
            requires
                2 * m * unit <= 2 * num + unit,
                num < 0x20_0000_0000_0000,
                unit >= 0x4000_0000,
        ;
    }
}

/// An importance that is a number is within zero and one once it is clamped, and
/// clamping it again changes nothing.
pub proof fn law_clamped_is_within_unit(importance: Importance)
    ensures
        !importance.is_nan() ==> 0 <= importance.clamped().rank() <= ONE,
        importance.clamped().clamped() == importance.clamped(),
{
}

} // verus!
