//! Observations as binary64 bit patterns.
//!
//! A [`Sample`] carries the 64 bits of an IEEE 754 double: one sign bit,
//! eleven exponent bits and fifty-two fraction bits. The library never
//! computes with the encoded number directly. It classifies the pattern,
//! compares magnitudes, and converts finite values to [`Fixed`] and back.
//!
//! The mathematical meaning of a pattern is given by `absolute_units`: the
//! magnitude of the encoded number counted in units of 2^-1074, the
//! smallest positive double. Every finite double is a whole number of such
//! units, so comparisons against thresholds can be stated exactly.

use vstd::prelude::*;
use vstd::arithmetic::power2::{
    pow2,
    lemma2_to64,
    lemma2_to64_rest,
    lemma_pow2_adds,
    lemma_pow2_pos,
    lemma_pow2_strictly_increases,
    lemma_pow2_unfold,
};
use vstd::arithmetic::mul::{
    lemma_mul_inequality,
    lemma_mul_is_associative,
    lemma_mul_is_commutative,
    lemma_mul_strict_inequality,
};
use vstd::arithmetic::div_mod::{
    lemma_basic_div,
    lemma_div_by_multiple,
    lemma_div_denominator,
};
use vstd::bits::{lemma_u64_shl_is_mul, lemma_u64_shr_is_div};
use crate::numeric::fixed::{magnitude, Fixed};

verus! {

/// Bit pattern of the double 1.0, the largest daily return that is not an
/// outlier.
pub const RETURN_LIMIT_BITS: u64 = 0x3FF0_0000_0000_0000;

/// Bit pattern of the double 1,000,000.0, the largest cash flow that is not
/// an outlier.
pub const CASH_FLOW_LIMIT_BITS: u64 = 0x412E_8480_0000_0000;

/// The pattern without its sign bit.
pub open spec fn magnitude_bits(bits: u64) -> int {
    bits as int % 0x8000_0000_0000_0000
}

/// The eleven exponent bits, as a number from 0 to 2047.
pub open spec fn exponent_field(bits: u64) -> int {
    magnitude_bits(bits) / 0x10_0000_0000_0000
}

/// The fifty-two fraction bits.
pub open spec fn fraction_field(bits: u64) -> int {
    magnitude_bits(bits) % 0x10_0000_0000_0000
}

/// The integer significand: the fraction bits, with the implicit leading
/// bit added for every pattern that is not subnormal.
pub open spec fn significand(bits: u64) -> int {
    if exponent_field(bits) == 0 {
        fraction_field(bits)
    } else {
        0x10_0000_0000_0000 + fraction_field(bits)
    }
}

/// The power of two by which the significand is scaled, relative to
/// 2^-1074.
pub open spec fn binade(bits: u64) -> nat {
    if exponent_field(bits) == 0 {
        0
    } else {
        (exponent_field(bits) - 1) as nat
    }
}

/// Magnitude of the encoded number in units of 2^-1074. For a pattern
/// that encodes an infinity or a NaN the same formula gives a count above
/// that of every finite double.
pub open spec fn absolute_units(bits: u64) -> int {
    significand(bits) * pow2(binade(bits))
}

/// The encoded number in units of 2^-32, rounded toward zero.
pub open spec fn fixed_units(bits: u64) -> int {
    let whole = absolute_units(bits) / (pow2(1042) as int);
    if bits >= 0x8000_0000_0000_0000 {
        -whole
    } else {
        whole
    }
}

/// The encoded number in units of 2^(`unit` - 1074), rounded toward zero.
pub open spec fn scaled_units(bits: u64, unit: nat) -> int {
    let whole = absolute_units(bits) / (pow2(unit) as int);
    if bits >= 0x8000_0000_0000_0000 {
        -whole
    } else {
        whole
    }
}

/// A whole number cut down to its fifty-three leading binary digits, the
/// digits below them replaced by zeros.
pub open spec fn leading_digits(m: nat) -> nat
    decreases m,
{
    if m < 0x20_0000_0000_0000 {
        m
    } else {
        2 * leading_digits(m / 2)
    }
}

/// One observation of a time series, held as the bit pattern of a double.
#[derive(Clone, Copy, Debug, PartialEq, Eq, Structural)]
pub struct Sample {
    pub bits: u64,
}

impl View for Sample {
    type V = u64;

    open spec fn view(&self) -> u64 {
        self.bits
    }
}

impl Sample {
    /// Whether the sign bit is set.
    pub open spec fn negative(self) -> bool {
        self.bits >= 0x8000_0000_0000_0000
    }

    /// Whether the pattern encodes a NaN.
    pub open spec fn nan(self) -> bool {
        exponent_field(self.bits) == 2047 && fraction_field(self.bits) != 0
    }

    /// Whether the pattern encodes positive or negative infinity.
    pub open spec fn infinite(self) -> bool {
        exponent_field(self.bits) == 2047 && fraction_field(self.bits) == 0
    }

    /// Whether the pattern encodes a finite number.
    pub open spec fn finite(self) -> bool {
        exponent_field(self.bits) < 2047
    }

    /// Magnitude of the encoded number in units of 2^-1074.
    pub open spec fn absolute(self) -> int {
        absolute_units(self.bits)
    }

    /// The fixed-point number nearest to the encoded number in the
    /// direction of zero; the end of the fixed-point range where the
    /// number lies outside it.
    pub open spec fn fixed(self) -> Fixed {
        Fixed::of(fixed_units(self.bits))
    }

    /// Whether the magnitude of the encoded number is greater than that
    /// of `limit`. As with doubles, the answer is no when either is a NaN.
    pub open spec fn beyond(self, limit: Sample) -> bool {
        !self.nan() && !limit.nan() && self.absolute() > limit.absolute()
    }

    /// The sample with the given bit pattern.
    pub fn from_bits(bits: u64) -> (r: Sample)
        ensures
            r@ == bits,
    {
        Sample { bits }
    }

    /// The bit pattern of this sample.
    pub fn to_bits(&self) -> (r: u64)
        ensures
            r == self@,
    {
        self.bits
    }

    /// Whether the pattern encodes a NaN.
    pub fn is_nan(&self) -> (r: bool)
        ensures
            r == self.nan(),
    {
        self.bits % 0x8000_0000_0000_0000 > 0x7FF0_0000_0000_0000
    }

    /// Whether the pattern encodes positive or negative infinity.
    pub fn is_infinite(&self) -> (r: bool)
        ensures
            r == self.infinite(),
    {
        self.bits % 0x8000_0000_0000_0000 == 0x7FF0_0000_0000_0000
    }

    /// Whether the pattern encodes a finite number.
    pub fn is_finite(&self) -> (r: bool)
        ensures
            r == self.finite(),
            r == (!self.nan() && !self.infinite()),
    {
        self.bits % 0x8000_0000_0000_0000 < 0x7FF0_0000_0000_0000
    }

    /// Whether the magnitude of the encoded number is greater than that of
    /// `limit`.
    pub fn exceeds(&self, limit: Sample) -> (r: bool)
        ensures
            r == self.beyond(limit),
    {
        if self.is_nan() || limit.is_nan() {
            return false;
        }
        proof {
            lemma_absolute_units_ordered(limit.bits, self.bits);
        }
        self.bits % 0x8000_0000_0000_0000 > limit.bits % 0x8000_0000_0000_0000
    }

    /// The largest daily return that is not an outlier: the double 1.0.
    pub fn return_limit() -> (r: Sample)
        ensures
            r@ == RETURN_LIMIT_BITS,
    {
        Sample { bits: RETURN_LIMIT_BITS }
    }

    /// The largest cash flow that is not an outlier: the double
    /// 1,000,000.0.
    pub fn cash_flow_limit() -> (r: Sample)
        ensures
            r@ == CASH_FLOW_LIMIT_BITS,
    {
        Sample { bits: CASH_FLOW_LIMIT_BITS }
    }

    /// The double nearest to a fixed-point number in the direction of zero.
    ///
    /// A double holds fifty-three binary digits, so a number of up to that
    /// many digits is encoded exactly, and of a longer one the leading
    /// fifty-three are kept.
    pub fn from_fixed(value: Fixed) -> (r: Sample)
        ensures
            r.finite(),
            r.negative() == (value@ < 0),
            r.absolute() == leading_digits(magnitude(value@) as nat) * pow2(1042),
            magnitude(value@) < 0x20_0000_0000_0000 ==> r.fixed() == value,
    {
        let size: u64 = if value.raw >= 0 {
            value.raw as u64
        } else if value.raw == i64::MIN {
            0x8000_0000_0000_0000
        } else {
            (-value.raw) as u64
        };
        let sign: u64 = if value.raw < 0 {
            0x8000_0000_0000_0000
        } else {
            0
        };
        if size == 0 {
            proof {
                assert(absolute_units(sign) == 0 * pow2(0));
                assert(0 * pow2(0) == 0) by (nonlinear_arith);
                assert(0 * pow2(1042) == 0) by (nonlinear_arith);
                lemma_encoded_converts_back(Sample { bits: sign }, value);
            }
            return Sample { bits: sign };
        }
        let ghost target = leading_digits(size as nat) * pow2(1042);
        let mut kept: u64 = size;
        let mut shift: u64 = 1042;
        proof {
            lemma2_to64();
            assert(kept as int * 1 == kept);
        }
        while kept >= 0x20_0000_0000_0000
            invariant
                0 < kept,
                1042 <= shift <= 1053,
                kept as int * pow2((shift - 1042) as nat) <= 0x8000_0000_0000_0000,
                shift > 1042 ==> kept >= 0x10_0000_0000_0000,
                leading_digits(kept as nat) * pow2(shift as nat) == target,
            decreases kept,
        {
            proof {
                let half = leading_digits((kept / 2) as nat) as int;
                let low = pow2((shift - 1042) as nat) as int;
                lemma_pow2_unfold((shift + 1) as nat);
                lemma_pow2_unfold((shift + 1 - 1042) as nat);
                assert((2 * half) * pow2(shift as nat) == half * (2 * pow2(shift as nat)))
                    by (nonlinear_arith);
                if shift >= 1053 {
                    lemma2_to64();
                    lemma_pow2_at_least(11, (shift - 1042) as nat);
                    assert(kept as int * low >= 0x20_0000_0000_0000 * 0x800) by (nonlinear_arith)
                        requires
                            kept >= 0x20_0000_0000_0000,
                            low >= 0x800,
                    ;
                }
                assert((kept / 2) as int * (2 * low) <= kept as int * low) by (nonlinear_arith)
                    requires
                        0 <= (kept / 2) * 2 <= kept,
                        low >= 0,
                ;
            }
            kept = kept / 2;
            shift = shift + 1;
        }
        proof {
            lemma2_to64();
        }
        while kept < 0x10_0000_0000_0000
            invariant
                0 < kept < 0x20_0000_0000_0000,
                990 <= shift <= 1053,
                shift > 1042 ==> kept >= 0x10_0000_0000_0000,
                shift <= 1042 ==> kept >= pow2((1042 - shift) as nat),
                kept as int * pow2(shift as nat) == target,
            decreases 0x20_0000_0000_0000 - kept,
        {
            proof {
                lemma2_to64_rest();
                if shift <= 990 {
                    lemma_pow2_at_least(52, (1042 - shift) as nat);
                }
                lemma_pow2_unfold(shift as nat);
                lemma_pow2_unfold((1042 - (shift - 1)) as nat);
                let high = pow2((shift - 1) as nat) as int;
                assert((2 * kept) * high == kept * (2 * high)) by (nonlinear_arith);
            }
            kept = kept * 2;
            shift = shift - 1;
        }
        let bits: u64 = sign + (shift + 1) * 0x10_0000_0000_0000 + (kept - 0x10_0000_0000_0000);
        assert(exponent_field(bits) == shift + 1);
        assert(fraction_field(bits) == kept - 0x10_0000_0000_0000);
        proof {
            lemma_encoded_converts_back(Sample { bits }, value);
        }
        Sample { bits }
    }

    /// The fixed-point number for the encoded number, unless that is a NaN
    /// or an infinity.
    pub fn try_to_fixed(&self) -> (r: Option<Fixed>)
        ensures
            self.finite() ==> r == Some(self.fixed()),
            !self.finite() ==> r is None,
    {
        if self.is_finite() {
            Some(self.to_fixed())
        } else {
            None
        }
    }

    /// The fixed-point number nearest to the encoded finite double in the
    /// direction of zero; the end of the fixed-point range where the
    /// double lies outside it.
    pub fn to_fixed(&self) -> (r: Fixed)
        requires
            self.finite(),
        ensures
            r == self.fixed(),
    {
        let mag: u64 = self.bits % 0x8000_0000_0000_0000;
        let e: u64 = mag / 0x10_0000_0000_0000;
        let f: u64 = mag % 0x10_0000_0000_0000;
        let sig: u64 = if e == 0 {
            f
        } else {
            0x10_0000_0000_0000 + f
        };
        let b: u64 = if e == 0 {
            0
        } else {
            e - 1
        };
        proof {
            lemma_whole_units_by_shift(self.bits, 1042);
            lemma2_to64();
            lemma2_to64_rest();
        }
        // `whole` is the unit count of the magnitude, capped at 2^63.
        let whole: u64 = if b >= 1042 {
            let k: u64 = b - 1042;
            if k >= 11 {
                proof {
                    lemma_pow2_at_least(11, k as nat);
                    lemma_mul_inequality(0x800, pow2(k as nat) as int, sig as int);
                    lemma_mul_is_commutative(sig as int, pow2(k as nat) as int);
                    lemma_mul_is_commutative(sig as int, 0x800);
                }
                0x8000_0000_0000_0000
            } else {
                proof {
                    lemma_pow2_at_least(k as nat, 10);
                    lemma_mul_inequality(pow2(k as nat) as int, 0x400, sig as int);
                    lemma_mul_is_commutative(sig as int, pow2(k as nat) as int);
                    lemma_mul_is_commutative(sig as int, 0x400);
                    lemma_u64_shl_is_mul(sig, k);
                }
                sig << k
            }
        } else {
            let k: u64 = 1042 - b;
            if k >= 53 {
                proof {
                    lemma_pow2_at_least(53, k as nat);
                    lemma_basic_div(sig as int, pow2(k as nat) as int);
                }
                0
            } else {
                proof {
                    lemma_u64_shr_is_div(sig, k);
                }
                sig >> k
            }
        };
        if self.bits >= 0x8000_0000_0000_0000 {
            if whole >= 0x8000_0000_0000_0000 {
                Fixed { raw: i64::MIN }
            } else {
                Fixed { raw: -(whole as i64) }
            }
        } else {
            if whole >= 0x8000_0000_0000_0000 {
                Fixed { raw: i64::MAX }
            } else {
                Fixed { raw: whole as i64 }
            }
        }
    }
}

/// Patterns taken without their sign are ordered as the magnitudes they
/// encode.
pub proof fn lemma_absolute_units_ordered(a: u64, b: u64)
    ensures
        magnitude_bits(a) < magnitude_bits(b) <==> absolute_units(a) < absolute_units(b),
        magnitude_bits(a) == magnitude_bits(b) ==> absolute_units(a) == absolute_units(b),
{
    if magnitude_bits(a) < magnitude_bits(b) {
        lemma_absolute_units_increase(a, b);
    } else if magnitude_bits(b) < magnitude_bits(a) {
        lemma_absolute_units_increase(b, a);
    }
}

/// A smaller pattern encodes a smaller magnitude.
proof fn lemma_absolute_units_increase(a: u64, b: u64)
    requires
        magnitude_bits(a) < magnitude_bits(b),
    ensures
        absolute_units(a) < absolute_units(b),
{
    let ea = exponent_field(a);
    let eb = exponent_field(b);
    let pa = pow2(binade(a)) as int;
    let pb = pow2(binade(b)) as int;
    lemma_pow2_pos(binade(a));
    lemma_pow2_pos(binade(b));
    assert(ea <= eb);
    if ea == eb {
        assert(significand(a) < significand(b));
        lemma_mul_strict_inequality(significand(a), significand(b), pa);
    } else {
        // The whole binade of `a` lies below the least value of the binade of `b`.
        let floor_b = 0x10_0000_0000_0000 * pb;
        assert(floor_b <= absolute_units(b)) by {
            lemma_mul_inequality(0x10_0000_0000_0000, significand(b), pb);
        }
        if ea == 0 {
            lemma2_to64();
            assert(pa == 1);
            assert(absolute_units(a) < 0x10_0000_0000_0000);
            assert(0x10_0000_0000_0000 * 1 <= floor_b) by {
                lemma_mul_inequality(1, pb, 0x10_0000_0000_0000);
                lemma_mul_is_commutative(pb, 0x10_0000_0000_0000);
            }
        } else {
            let next = pow2((binade(a) + 1) as nat) as int;
            lemma_pow2_unfold((binade(a) + 1) as nat);
            assert(next == 2 * pa);
            assert(absolute_units(a) < 0x20_0000_0000_0000 * pa) by {
                lemma_mul_strict_inequality(significand(a), 0x20_0000_0000_0000, pa);
            }
            assert(0x20_0000_0000_0000 * pa == 0x10_0000_0000_0000 * next) by {
                lemma_mul_is_associative(0x10_0000_0000_0000, 2, pa);
            }
            assert(next <= pb) by {
                if binade(a) + 1 < binade(b) {
                    lemma_pow2_strictly_increases((binade(a) + 1) as nat, binade(b));
                }
            }
            assert(0x10_0000_0000_0000 * next <= floor_b) by {
                lemma_mul_inequality(next, pb, 0x10_0000_0000_0000);
                lemma_mul_is_commutative(pb, 0x10_0000_0000_0000);
                lemma_mul_is_commutative(next, 0x10_0000_0000_0000);
            }
        }
    }
}

/// Powers of two do not decrease with the exponent.
pub proof fn lemma_pow2_at_least(small: nat, large: nat)
    requires
        small <= large,
    ensures
        pow2(small) <= pow2(large),
{
    if small < large {
        lemma_pow2_strictly_increases(small, large);
    }
}

/// The whole number of units of 2^(`unit` - 1074) in a magnitude is the
/// significand shifted by the distance between its binade and the unit.
pub proof fn lemma_whole_units_by_shift(bits: u64, unit: nat)
    ensures
        binade(bits) >= unit ==> absolute_units(bits) / (pow2(unit) as int) == significand(bits)
            * pow2((binade(bits) - unit) as nat),
        binade(bits) < unit ==> absolute_units(bits) / (pow2(unit) as int) == significand(bits) / (
        pow2((unit - binade(bits)) as nat) as int),
{
    let sig = significand(bits);
    let b = binade(bits);
    let one = pow2(unit) as int;
    lemma_pow2_pos(unit);
    if b >= unit {
        let k = (b - unit) as nat;
        let step = pow2(k) as int;
        lemma_pow2_pos(k);
        lemma_pow2_adds(k, unit);
        assert(absolute_units(bits) == (sig * step) * one) by {
            lemma_mul_is_associative(sig, step, one);
        }
        assert(sig * step >= 0) by (nonlinear_arith)
            requires
                sig >= 0,
                step > 0,
        ;
        lemma_div_by_multiple(sig * step, one);
    } else {
        let k = (unit - b) as nat;
        let step = pow2(k) as int;
        let base = pow2(b) as int;
        lemma_pow2_pos(k);
        lemma_pow2_pos(b);
        lemma_pow2_adds(b, k);
        assert(one == base * step);
        lemma_div_denominator(sig * base, base, step);
        lemma_div_by_multiple(sig, base);
    }
}

/// Cutting a number down to its leading digits does not make it larger, and
/// leaves a number of up to fifty-three digits as it is.
pub proof fn lemma_leading_digits_bounds(m: nat)
    ensures
        leading_digits(m) <= m,
        m < 0x20_0000_0000_0000 ==> leading_digits(m) == m,
    decreases m,
{
    if m >= 0x20_0000_0000_0000 {
        lemma_leading_digits_bounds(m / 2);
    }
}

/// A double that encodes the leading digits of a fixed-point number
/// converts back to the number cut down to those digits.
pub proof fn lemma_encoded_converts_back(encoded: Sample, value: Fixed)
    requires
        encoded.negative() == (value@ < 0),
        encoded.absolute() == leading_digits(magnitude(value@) as nat) * pow2(1042),
    ensures
        encoded.fixed()@ == (if value@ < 0 {
            -(leading_digits(magnitude(value@) as nat) as int)
        } else {
            leading_digits(magnitude(value@) as nat) as int
        }),
        magnitude(value@) < 0x20_0000_0000_0000 ==> encoded.fixed() == value,
{
    let kept = leading_digits(magnitude(value@) as nat) as int;
    lemma_leading_digits_bounds(magnitude(value@) as nat);
    lemma_pow2_pos(1042);
    lemma_div_by_multiple(kept, pow2(1042) as int);
}

/// The return limit encodes the number one.
pub proof fn lemma_return_limit_is_one()
    ensures
        absolute_units(RETURN_LIMIT_BITS) == pow2(1074),
        !(Sample { bits: RETURN_LIMIT_BITS }).nan(),
{
    lemma2_to64_rest();
    lemma_pow2_adds(52, 1022);
}

/// The cash-flow limit encodes the number one million.
pub proof fn lemma_cash_flow_limit_is_one_million()
    ensures
        absolute_units(CASH_FLOW_LIMIT_BITS) == 1_000_000 * pow2(1074),
        !(Sample { bits: CASH_FLOW_LIMIT_BITS }).nan(),
{
    lemma2_to64_rest();
    lemma_pow2_adds(33, 1041);
    assert(significand(CASH_FLOW_LIMIT_BITS) == 1_000_000 * pow2(33));
    lemma_mul_is_associative(1_000_000, pow2(33) as int, pow2(1041) as int);
}

} // verus!
