//! Weights divided by their sum.
//!
//! Each weight becomes its share of the total, rounded down to a whole
//! number of units of 2^-32. Rounding down loses less than one unit per
//! share, so the shares fall short of one by fewer units than there are
//! weights. That many of the leading shares are raised by one unit, which
//! makes the shares sum to one exactly.

use vstd::prelude::*;
use vstd::arithmetic::div_mod::{
    lemma_fundamental_div_mod,
    lemma_fundamental_div_mod_converse,
    lemma_mod_bound,
};
use crate::numeric::fixed::{scale, Fixed, Share};

verus! {

/// Sum of the unit counts of a sequence of numbers.
pub open spec fn sum(values: Seq<Fixed>) -> int
    decreases values.len(),
{
    if values.len() == 0 {
        0
    } else {
        sum(values.drop_last()) + values.last()@
    }
}

/// Sum of the unit counts of a sequence of shares.
pub open spec fn share_sum(shares: Seq<Share>) -> int
    decreases shares.len(),
{
    if shares.len() == 0 {
        0
    } else {
        share_sum(shares.drop_last()) + shares.last()@
    }
}

/// The quotient `weight / total` of two numbers given in units, itself in
/// units and rounded down.
pub open spec fn floor_share(weight: int, total: int) -> int
    recommends
        total != 0,
{
    if total > 0 {
        (weight * scale()) / total
    } else {
        ((-weight) * scale()) / (-total)
    }
}

/// Sum of the rounded-down shares that the weights have of `total`.
pub open spec fn floor_share_sum(weights: Seq<Fixed>, total: int) -> int
    decreases weights.len(),
{
    if weights.len() == 0 {
        0
    } else {
        floor_share_sum(weights.drop_last(), total) + floor_share(weights.last()@, total)
    }
}

/// By how many units the rounded-down shares fall short of one.
pub open spec fn shortfall(weights: Seq<Fixed>) -> int {
    scale() - floor_share_sum(weights, sum(weights))
}

/// The share of weight `i` in the sum of all: rounded down, and raised by
/// one unit for as many leading weights as units are missing.
pub open spec fn share_of(weights: Seq<Fixed>, i: int) -> Share {
    let raise: int = if i < shortfall(weights) {
        1
    } else {
        0
    };
    Share { raw: (floor_share(weights[i]@, sum(weights)) + raise) as i128 }
}

/// The weights divided by their sum; all zero where the sum is zero.
pub open spec fn normalized(weights: Seq<Fixed>) -> Seq<Share> {
    if sum(weights) == 0 {
        Seq::new(weights.len(), |i: int| Share { raw: 0 })
    } else {
        Seq::new(weights.len(), |i: int| share_of(weights, i))
    }
}

/// What rounding down leaves of each share, summed: the weights times one,
/// taken with the sign of `total`, less what the rounded-down shares
/// account for.
pub open spec fn rest(weights: Seq<Fixed>, total: int) -> int {
    let divisor = if total > 0 {
        total
    } else {
        -total
    };
    let signed = if total > 0 {
        sum(weights)
    } else {
        -sum(weights)
    };
    signed * scale() - divisor * floor_share_sum(weights, total)
}

/// A rounded-down share is the quotient rounded down: it is at most the
/// exact quotient and misses it by less than one unit. It is no larger in
/// magnitude than the weight times one.
pub proof fn lemma_floor_share(weight: int, total: int)
    requires
        total != 0,
    ensures
        ({
            let divisor = if total > 0 {
                total
            } else {
                -total
            };
            let dividend = if total > 0 {
                weight * scale()
            } else {
                (-weight) * scale()
            };
            &&& divisor * floor_share(weight, total) <= dividend
            &&& dividend < divisor * floor_share(weight, total) + divisor
            &&& weight >= 0 ==> -(weight * scale()) <= floor_share(weight, total) <= weight
                * scale()
            &&& weight < 0 ==> weight * scale() <= floor_share(weight, total) <= -(weight
                * scale())
        }),
{
    let divisor = if total > 0 {
        total
    } else {
        -total
    };
    let dividend = if total > 0 {
        weight * scale()
    } else {
        (-weight) * scale()
    };
    let q = dividend / divisor;
    let r = dividend % divisor;
    lemma_fundamental_div_mod(dividend, divisor);
    lemma_mod_bound(dividend, divisor);
    assert(floor_share(weight, total) == q);
    let bound = if weight >= 0 {
        weight * scale()
    } else {
        -(weight * scale())
    };
    assert(-bound <= dividend <= bound) by (nonlinear_arith)
        requires
            dividend == weight * scale() || dividend == (-weight) * scale(),
            bound == weight * scale() || bound == -(weight * scale()),
            weight >= 0 ==> bound == weight * scale(),
            weight < 0 ==> bound == -(weight * scale()),
            scale() > 0,
    ;
    assert(-bound <= q <= bound) by (nonlinear_arith)
        requires
            dividend == divisor * q + r,
            0 <= r < divisor,
            -bound <= dividend <= bound,
            bound >= 0,
            divisor >= 1,
    ;
}

/// What rounding down leaves is not negative and less than the divisor for
/// each weight.
pub proof fn lemma_rest_bounds(weights: Seq<Fixed>, total: int)
    requires
        total != 0,
    ensures
        ({
            let divisor = if total > 0 {
                total
            } else {
                -total
            };
            0 <= rest(weights, total) <= weights.len() * (divisor - 1)
        }),
    decreases weights.len(),
{
    let divisor = if total > 0 {
        total
    } else {
        -total
    };
    if weights.len() == 0 {
        assert(divisor * 0 == 0);
        assert(0 * scale() == 0);
        assert(0 * (divisor - 1) == 0);
    } else {
        let prefix = weights.drop_last();
        let last = weights.last()@;
        lemma_rest_bounds(prefix, total);
        lemma_floor_share(last, total);
        let fs = floor_share_sum(prefix, total);
        let f = floor_share(last, total);
        let sp = if total > 0 {
            sum(prefix)
        } else {
            -sum(prefix)
        };
        let sl = if total > 0 {
            last
        } else {
            -last
        };
        let s = scale();
        let n = prefix.len() as int;
        assert((sp + sl) * s - divisor * (fs + f) == (sp * s - divisor * fs) + (sl * s - divisor
            * f)) by (nonlinear_arith);
        assert((n + 1) * (divisor - 1) == n * (divisor - 1) + (divisor - 1)) by (nonlinear_arith);
        assert((-last) * s == -(last * s)) by (nonlinear_arith);
    }
}

/// The rounded-down shares of the weights in their own sum fall short of
/// one by no more units than there are weights, and by fewer where there
/// is a weight at all.
pub proof fn lemma_shortfall_bounds(weights: Seq<Fixed>)
    requires
        sum(weights) != 0,
    ensures
        0 <= shortfall(weights) < weights.len(),
{
    let total = sum(weights);
    let divisor = if total > 0 {
        total
    } else {
        -total
    };
    let n = weights.len() as int;
    let short = shortfall(weights);
    let fs = floor_share_sum(weights, total);
    lemma_rest_bounds(weights, total);
    assert(rest(weights, total) == divisor * short) by (nonlinear_arith)
        requires
            rest(weights, total) == divisor * scale() - divisor * fs,
            short == scale() - fs,
    ;
    assert(n >= 1);
    assert(0 <= short) by (nonlinear_arith)
        requires
            0 <= divisor * short,
            divisor >= 1,
    ;
    assert(short < n) by (nonlinear_arith)
        requires
            divisor * short <= n * (divisor - 1),
            divisor >= 1,
            n >= 1,
    ;
}

/// The sum of the shares of the first `k` weights.
proof fn lemma_share_sum_of_prefix(weights: Seq<Fixed>, k: int)
    requires
        sum(weights) != 0,
        0 <= k <= weights.len(),
    ensures
        share_sum(normalized(weights).take(k)) == floor_share_sum(
            weights.take(k),
            sum(weights),
        ) + (if k < shortfall(weights) {
            k
        } else {
            shortfall(weights)
        }),
    decreases k,
{
    lemma_shortfall_bounds(weights);
    if k > 0 {
        lemma_share_sum_of_prefix(weights, k - 1);
        assert(normalized(weights).take(k).drop_last() =~= normalized(weights).take(k - 1));
        assert(weights.take(k).drop_last() =~= weights.take(k - 1));
        lemma_share_fits(weights, k - 1);
    }
}

/// A share fits in 128 bits.
pub proof fn lemma_share_fits(weights: Seq<Fixed>, i: int)
    requires
        sum(weights) != 0,
        0 <= i < weights.len(),
    ensures
        share_of(weights, i)@ == floor_share(weights[i]@, sum(weights)) + (if i < shortfall(
            weights,
        ) {
            1int
        } else {
            0int
        }),
        -0x1_0000_0000_0000_0000_0000_0000 <= floor_share(weights[i]@, sum(weights))
            <= 0x1_0000_0000_0000_0000_0000_0000,
{
    lemma_floor_share(weights[i]@, sum(weights));
    let w = weights[i]@;
    assert(-0x8000_0000_0000_0000 * 0x1_0000_0000 <= w * scale() <= 0x8000_0000_0000_0000
        * 0x1_0000_0000) by (nonlinear_arith)
        requires
            -0x8000_0000_0000_0000 <= w <= 0x8000_0000_0000_0000,
            scale() == 0x1_0000_0000,
    ;
}

/// The shares of weights whose sum is not zero sum to one exactly.
pub proof fn lemma_shares_sum_to_one(weights: Seq<Fixed>)
    requires
        sum(weights) != 0,
    ensures
        normalized(weights).len() == weights.len(),
        share_sum(normalized(weights)) == scale(),
{
    lemma_shortfall_bounds(weights);
    lemma_share_sum_of_prefix(weights, weights.len() as int);
    assert(normalized(weights).take(weights.len() as int) =~= normalized(weights));
    assert(weights.take(weights.len() as int) =~= weights);
}

/// The quotient and the remainder of a division that rounds down.
fn floor_division(dividend: i128, divisor: u128) -> (r: (i128, u128))
    requires
        divisor > 0,
        divisor <= i128::MAX,
        dividend > i128::MIN,
    ensures
        r.0 == dividend as int / divisor as int,
        r.1 == dividend as int % divisor as int,
        r.1 < divisor,
{
    if dividend >= 0 {
        let size: u128 = dividend as u128;
        (((size / divisor) as i128), size % divisor)
    } else {
        let size: u128 = (-dividend) as u128;
        let q: u128 = size / divisor;
        let rem: u128 = size % divisor;
        proof {
            lemma_fundamental_div_mod(size as int, divisor as int);
            assert(q <= size) by (nonlinear_arith)
                requires
                    size == divisor * q + rem,
                    divisor >= 1,
                    q >= 0,
                    rem >= 0,
            ;
        }
        if rem == 0 {
            proof {
                assert(dividend == (-(q as int)) * divisor + 0) by (nonlinear_arith)
                    requires
                        -dividend == divisor * q + 0,
                ;
                lemma_fundamental_div_mod_converse(
                    dividend as int,
                    divisor as int,
                    -(q as int),
                    0,
                );
            }
            (-(q as i128), 0)
        } else {
            proof {
                assert(dividend == (-(q as int) - 1) * divisor + (divisor - rem))
                    by (nonlinear_arith)
                    requires
                        -dividend == divisor * q + rem,
                ;
                lemma_fundamental_div_mod_converse(
                    dividend as int,
                    divisor as int,
                    -(q as int) - 1,
                    divisor - rem,
                );
            }
            (-(q as i128) - 1, divisor - rem)
        }
    }
}

/// Sum of the unit counts of a sequence of numbers.
pub fn total(values: &[Fixed]) -> (t: i128)
    ensures
        t == sum(values@),
        i128::MIN < t <= i128::MAX,
{
    let mut acc: i128 = 0;
    let mut i: usize = 0;
    while i < values.len()
        invariant
            i <= values.len(),
            acc == sum(values@.take(i as int)),
            i * i64::MIN <= acc <= i * i64::MAX,
        decreases values.len() - i,
    {
        proof {
            assert(values@.take(i + 1).drop_last() =~= values@.take(i as int));
        }
        acc = acc + values[i].raw as i128;
        i += 1;
    }
    proof {
        assert(values@.take(values.len() as int) =~= values@);
    }
    acc
}

/// The weights divided by their sum; all zero where the sum is zero.
pub fn normalize(weights: &[Fixed]) -> (r: Vec<Share>)
    ensures
        r@ == normalized(weights@),
{
    let t: i128 = total(weights);
    let mut r: Vec<Share> = Vec::new();
    if t == 0 {
        let mut i: usize = 0;
        while i < weights.len()
            invariant
                i <= weights.len(),
                r@.len() == i,
                sum(weights@) == 0,
                forall|j: int| 0 <= j < i ==> r@[j] == (Share { raw: 0 }),
            decreases weights.len() - i,
        {
            r.push(Share { raw: 0 });
            i += 1;
        }
        assert(r@ =~= normalized(weights@));
        return r;
    }
    let divisor: u128 = if t > 0 {
        t as u128
    } else {
        (-t) as u128
    };
    // First pass: the rounded-down shares, and how many units they leave over.
    // `carried` holds what is left below one unit, `units` the whole units.
    let mut floors: Vec<i128> = Vec::new();
    let mut carried: u128 = 0;
    let mut units: usize = 0;
    let mut i: usize = 0;
    while i < weights.len()
        invariant
            i <= weights.len(),
            floors@.len() == i,
            t == sum(weights@),
            t != 0,
            i128::MIN < t <= i128::MAX,
            divisor == (if t > 0 {
                t as int
            } else {
                -(t as int)
            }),
            carried < divisor,
            units <= i,
            forall|j: int|
                0 <= j < i ==> floors@[j] == floor_share(#[trigger] weights@[j]@, t as int),
            rest(weights@.take(i as int), t as int) == units * divisor + carried,
        decreases weights.len() - i,
    {
        let w: i128 = weights[i].raw as i128;
        let dividend: i128 = if t > 0 {
            w * 0x1_0000_0000i128
        } else {
            (-w) * 0x1_0000_0000i128
        };
        let (q, rem) = floor_division(dividend, divisor);
        proof {
            let before = weights@.take(i as int);
            let after = weights@.take(i + 1);
            assert(after.drop_last() =~= before);
            assert(after.last() == weights@[i as int]);
            assert(q == floor_share(weights@[i as int]@, t as int));
            lemma_fundamental_div_mod(dividend as int, divisor as int);
            let fs = floor_share_sum(before, t as int);
            let sp = if t > 0 {
                sum(before)
            } else {
                -sum(before)
            };
            let s = scale();
            let d = divisor as int;
            let signed: int = if t > 0 {
                w as int
            } else {
                -(w as int)
            };
            let whole = dividend as int;
            let missing = rem as int;
            let quot = q as int;
            assert(whole == signed * s);
            assert((sp + signed) * s - d * (fs + quot) == (sp * s - d * fs) + missing)
                by (nonlinear_arith)
                requires
                    whole == signed * s,
                    whole == d * quot + missing,
            ;
            assert(rest(after, t as int) == rest(before, t as int) + rem);
        }
        floors.push(q);
        if carried >= divisor - rem {
            carried = carried - (divisor - rem);
            proof {
                assert((units + 1) * divisor == units * divisor + divisor) by (nonlinear_arith);
            }
            units = units + 1;
        } else {
            carried = carried + rem;
        }
        i += 1;
    }
    proof {
        assert(weights@.take(weights.len() as int) =~= weights@);
        lemma_shortfall_bounds(weights@);
        let short = shortfall(weights@);
        let d = divisor as int;
        let fs = floor_share_sum(weights@, t as int);
        assert(rest(weights@, t as int) == d * short) by (nonlinear_arith)
            requires
                rest(weights@, t as int) == d * scale() - d * fs,
                short == scale() - fs,
        ;
        assert(short == units) by (nonlinear_arith)
            requires
                d * short == units * d + carried,
                0 <= carried < d,
        ;
    }
    // Second pass: raise the leading shares by one unit each.
    let mut k: usize = 0;
    while k < weights.len()
        invariant
            k <= weights.len(),
            r@.len() == k,
            floors@.len() == weights@.len(),
            sum(weights@) != 0,
            t == sum(weights@),
            units == shortfall(weights@),
            forall|j: int|
                0 <= j < weights@.len() ==> floors@[j] == floor_share(
                    #[trigger] weights@[j]@,
                    t as int,
                ),
            forall|j: int| 0 <= j < k ==> r@[j] == share_of(weights@, j),
        decreases weights.len() - k,
    {
        proof {
            lemma_share_fits(weights@, k as int);
        }
        let raise: i128 = if k < units {
            1
        } else {
            0
        };
        r.push(Share { raw: floors[k] + raise });
        k += 1;
    }
    assert(r@ =~= normalized(weights@));
    r
}

} // verus!
