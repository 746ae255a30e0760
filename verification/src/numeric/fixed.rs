//! Signed fixed-point numbers with 32 fractional bits and saturating
//! arithmetic.
//!
//! A [`Fixed`] holds an `i64` that counts units of 2^-32, so it covers
//! the range from -2^31 to just under 2^31 with a resolution of about
//! 2.3e-10. Every operation first forms the exact mathematical result,
//! rounds it toward zero to a whole number of units, and then clamps it to
//! the representable range. Contracts speak of the unit counts as
//! mathematical integers.

use vstd::prelude::*;
use vstd::arithmetic::div_mod::lemma_div_nonincreasing;

verus! {

/// Number of fractional bits of a [`Fixed`].
pub const FRACTION_BITS: u32 = 32;

/// Unit count of the number one.
pub const ONE_RAW: i64 = 0x1_0000_0000;

/// Units per whole: 2^32.
pub open spec fn scale() -> int {
    0x1_0000_0000
}

/// Absolute value of an integer.
pub open spec fn magnitude(x: int) -> int {
    if x >= 0 {
        x
    } else {
        -x
    }
}

/// The representable unit count nearest to `x`.
pub open spec fn clamp(x: int) -> int {
    if x > i64::MAX {
        i64::MAX as int
    } else if x < i64::MIN {
        i64::MIN as int
    } else {
        x
    }
}

/// `a / b` rounded toward zero.
pub open spec fn quotient(a: int, b: int) -> int
    recommends
        b != 0,
{
    if (a >= 0) == (b > 0) {
        magnitude(a) / magnitude(b)
    } else {
        -(magnitude(a) / magnitude(b))
    }
}

/// A fixed-point number; `raw` counts units of 2^-32.
#[derive(Clone, Copy, Debug, PartialEq, Eq, Structural)]
pub struct Fixed {
    pub raw: i64,
}

impl View for Fixed {
    type V = int;

    open spec fn view(&self) -> int {
        self.raw as int
    }
}

impl Fixed {
    /// The representable number nearest to `units` units.
    pub open spec fn of(units: int) -> Fixed {
        Fixed { raw: clamp(units) as i64 }
    }

    /// The sum of two numbers, clamped.
    pub open spec fn plus(self, rhs: Fixed) -> Fixed {
        Fixed::of(self@ + rhs@)
    }

    /// The difference of two numbers, clamped.
    pub open spec fn minus(self, rhs: Fixed) -> Fixed {
        Fixed::of(self@ - rhs@)
    }

    /// The product of two numbers, rounded toward zero and clamped.
    pub open spec fn product(self, rhs: Fixed) -> Fixed {
        Fixed::of(quotient(self@ * rhs@, scale()))
    }

    /// The quotient of two numbers, rounded toward zero and clamped.
    pub open spec fn ratio(self, rhs: Fixed) -> Fixed
        recommends
            rhs@ != 0,
    {
        Fixed::of(quotient(self@ * scale(), rhs@))
    }

    /// `n` times this number, clamped.
    pub open spec fn multiple(self, n: int) -> Fixed {
        Fixed::of(self@ * n)
    }

    /// The number zero.
    pub fn zero() -> (r: Fixed)
        ensures
            r == Fixed::of(0),
            r@ == 0,
    {
        Fixed { raw: 0 }
    }

    /// The number one.
    pub fn one() -> (r: Fixed)
        ensures
            r == Fixed::of(scale()),
            r@ == scale(),
    {
        Fixed { raw: ONE_RAW }
    }

    /// The number with the given unit count.
    pub fn from_raw(raw: i64) -> (r: Fixed)
        ensures
            r@ == raw,
    {
        Fixed { raw }
    }

    /// The unit count of this number.
    pub fn raw(&self) -> (r: i64)
        ensures
            r == self@,
    {
        self.raw
    }

    /// Whether this number is zero.
    pub fn is_zero(&self) -> (r: bool)
        ensures
            r == (self@ == 0),
    {
        self.raw == 0
    }

    /// Saturating sum.
    pub fn add(self, rhs: Fixed) -> (r: Fixed)
        ensures
            r == self.plus(rhs),
    {
        clamp_wide(self.raw as i128 + rhs.raw as i128)
    }

    /// Saturating difference.
    pub fn sub(self, rhs: Fixed) -> (r: Fixed)
        ensures
            r == self.minus(rhs),
    {
        clamp_wide(self.raw as i128 - rhs.raw as i128)
    }

    /// Saturating product, rounded toward zero.
    pub fn mul(self, rhs: Fixed) -> (r: Fixed)
        ensures
            r == self.product(rhs),
    {
        proof {
            lemma_product_bounds(self.raw as int, rhs.raw as int);
        }
        let wide: i128 = (self.raw as i128) * (rhs.raw as i128);
        clamp_wide(quotient_wide(wide, 0x1_0000_0000i128))
    }

    /// Saturating quotient, rounded toward zero.
    pub fn div(self, rhs: Fixed) -> (r: Fixed)
        requires
            rhs@ != 0,
        ensures
            r == self.ratio(rhs),
    {
        let wide: i128 = (self.raw as i128) * 0x1_0000_0000i128;
        clamp_wide(quotient_wide(wide, rhs.raw as i128))
    }

    /// Saturating product with a whole number.
    pub fn times(self, n: usize) -> (r: Fixed)
        ensures
            r == self.multiple(n as int),
    {
        let a: i128 = self.raw as i128;
        let k: u64 = n as u64;
        proof {
            assert(-0x8000_0000_0000_0000 * 0xffff_ffff_ffff_ffff <= (a as int) * (k as int)
                <= 0x7fff_ffff_ffff_ffff * 0xffff_ffff_ffff_ffff) by (nonlinear_arith)
                requires
                    -0x8000_0000_0000_0000 <= a <= 0x7fff_ffff_ffff_ffff,
                    0 <= k <= 0xffff_ffff_ffff_ffff,
            ;
        }
        clamp_wide(a * (k as i128))
    }
}

/// A share of a total: a number counted in units of 2^-32 like a
/// [`Fixed`], but held in 128 bits, so that the quotient of any two
/// fixed-point numbers fits.
#[derive(Clone, Copy, Debug, PartialEq, Eq, Structural)]
pub struct Share {
    pub raw: i128,
}

impl View for Share {
    type V = int;

    open spec fn view(&self) -> int {
        self.raw as int
    }
}

impl Share {
    /// The share with the given unit count.
    pub fn from_raw(raw: i128) -> (r: Share)
        ensures
            r@ == raw,
    {
        Share { raw }
    }

    /// The unit count of this share.
    pub fn raw(&self) -> (r: i128)
        ensures
            r == self@,
    {
        self.raw
    }

    /// The fixed-point number nearest to this share.
    pub fn to_fixed(&self) -> (r: Fixed)
        ensures
            r == Fixed::of(self@),
    {
        clamp_wide(self.raw)
    }
}

/// Absolute value of a 128-bit integer other than the least one.
fn magnitude_wide(a: i128) -> (m: u128)
    requires
        a > i128::MIN,
    ensures
        m == magnitude(a as int),
{
    if a >= 0 {
        a as u128
    } else {
        (-a) as u128
    }
}

/// `a / b` rounded toward zero, on 128-bit integers.
pub fn quotient_wide(a: i128, b: i128) -> (q: i128)
    requires
        b != 0,
        a > i128::MIN,
        b > i128::MIN,
    ensures
        q == quotient(a as int, b as int),
{
    let ma: u128 = magnitude_wide(a);
    let mb: u128 = magnitude_wide(b);
    let mq: u128 = ma / mb;
    proof {
        lemma_div_nonincreasing(ma as int, mb as int);
    }
    if (a >= 0) == (b > 0) {
        mq as i128
    } else {
        -(mq as i128)
    }
}

/// The representable number nearest to a count of units held in 128 bits.
pub fn clamp_wide(units: i128) -> (r: Fixed)
    ensures
        r == Fixed::of(units as int),
{
    if units > i64::MAX as i128 {
        Fixed { raw: i64::MAX }
    } else if units < i64::MIN as i128 {
        Fixed { raw: i64::MIN }
    } else {
        Fixed { raw: units as i64 }
    }
}

/// The product of two 64-bit integers fits in 128 bits with room to spare.
pub proof fn lemma_product_bounds(a: int, b: int)
    requires
        i64::MIN <= a <= i64::MAX,
        i64::MIN <= b <= i64::MAX,
    ensures
        -0x4000_0000_0000_0000_0000_0000_0000_0000 <= a * b
            <= 0x4000_0000_0000_0000_0000_0000_0000_0000,
{
    assert(-0x4000_0000_0000_0000_0000_0000_0000_0000 <= a * b
        <= 0x4000_0000_0000_0000_0000_0000_0000_0000) by (nonlinear_arith)
        requires
            -0x8000_0000_0000_0000 <= a <= 0x7fff_ffff_ffff_ffff,
            -0x8000_0000_0000_0000 <= b <= 0x7fff_ffff_ffff_ffff,
    ;
}

} // verus!
