//! The feature matrix: one row per day of the history, one column per
//! input series, each column standardized to mean zero and spread one.
//!
//! Standardizing cancels the scale of a column, so each column is first
//! counted in units of its own: the power of two that lets the largest
//! value of the column fill sixty-two bits. Every finite double fits such a
//! column, whatever its size. Mean, deviations and the mean of the squared
//! deviations are then exact whole numbers of these units; only the mean,
//! the root and the final quotient are rounded, each once.

use vstd::prelude::*;
use vstd::arithmetic::div_mod::{
    lemma_basic_div,
    lemma_div_by_multiple,
    lemma_div_is_ordered,
    lemma_div_multiples_vanish,
    lemma_div_nonincreasing,
    lemma_fundamental_div_mod,
    lemma_hoist_over_denominator,
};
use vstd::arithmetic::mul::{lemma_mul_inequality, lemma_mul_is_commutative};
use vstd::arithmetic::power2::{lemma2_to64, lemma2_to64_rest, lemma_pow2_pos, pow2};
use vstd::bits::{lemma_u64_shl_is_mul, lemma_u64_shr_is_div};
use crate::errors::AllocationError;
use crate::numeric::fixed::{clamp_wide, quotient, quotient_wide, scale, Fixed};
use crate::numeric::sample::{
    binade,
    lemma_pow2_at_least,
    lemma_whole_units_by_shift,
    scaled_units,
    Sample,
};
use crate::utils::validation::{validate_inputs, verdict};

verus! {

/// Number of columns of the feature matrix: daily returns, cash flows,
/// market indices, fund characteristics, in this order.
pub const FEATURE_COLUMNS: usize = 4;

/// Whether `r` is the square root of `n` rounded down.
pub open spec fn is_root(r: int, n: int) -> bool {
    r >= 0 && r * r <= n && n < (r + 1) * (r + 1)
}

/// The square root of `n` rounded down; zero for a negative `n`.
pub open spec fn root(n: int) -> int {
    if n <= 0 {
        0
    } else {
        choose|r: int| is_root(r, n)
    }
}

/// The largest binade among the values of a series.
pub open spec fn peak(series: Seq<Sample>) -> nat
    decreases series.len(),
{
    if series.len() == 0 {
        0
    } else if binade(series.last().bits) > peak(series.drop_last()) {
        binade(series.last().bits)
    } else {
        peak(series.drop_last())
    }
}

/// The unit in which a column is counted, as a power of two above
/// 2^-1074: nine binary places below the largest binade, so that the
/// largest value has sixty-two digits.
pub open spec fn column_unit(series: Seq<Sample>) -> nat {
    if peak(series) >= 9 {
        (peak(series) - 9) as nat
    } else {
        0
    }
}

/// The values of a series in units of the column, rounded toward zero.
pub open spec fn column_units(series: Seq<Sample>) -> Seq<int> {
    Seq::new(series.len(), |i: int| scaled_units(series[i].bits, column_unit(series)))
}

/// Sum of whole numbers.
pub open spec fn whole_sum(values: Seq<int>) -> int
    decreases values.len(),
{
    if values.len() == 0 {
        0
    } else {
        whole_sum(values.drop_last()) + values.last()
    }
}

/// Mean of a non-empty sequence of whole numbers, rounded toward zero.
pub open spec fn center(values: Seq<int>) -> int {
    quotient(whole_sum(values), values.len() as int)
}

/// Sum of the squared distances of the values from `middle`.
pub open spec fn square_sum(values: Seq<int>, middle: int) -> int
    decreases values.len(),
{
    if values.len() == 0 {
        0
    } else {
        square_sum(values.drop_last(), middle) + (values.last() - middle) * (values.last()
            - middle)
    }
}

/// The standard deviation of a non-empty population: the root, rounded
/// down, of the mean of the squared deviations from the mean.
pub open spec fn spread(values: Seq<int>) -> int {
    root(square_sum(values, center(values)) / (values.len() as int))
}

/// Value `i` less the mean, divided by the standard deviation, as a
/// fixed-point number; zero where the standard deviation is zero.
pub open spec fn standard_score(values: Seq<int>, i: int) -> Fixed {
    if spread(values) == 0 {
        Fixed::of(0)
    } else {
        Fixed::of(quotient((values[i] - center(values)) * scale(), spread(values)))
    }
}

/// A series of finite values, standardized.
pub open spec fn standardized(series: Seq<Sample>) -> Seq<Fixed> {
    Seq::new(series.len(), |i: int| standard_score(column_units(series), i))
}

/// The entries of the feature matrix in row-major order.
pub open spec fn feature_values(
    daily_returns: Seq<Sample>,
    cash_flows: Seq<Sample>,
    market_indices: Seq<Sample>,
    fund_characteristics: Seq<Sample>,
) -> Seq<Fixed> {
    Seq::new(
        4 * daily_returns.len(),
        |k: int|
            if k % 4 == 0 {
                standardized(daily_returns)[k / 4]
            } else if k % 4 == 1 {
                standardized(cash_flows)[k / 4]
            } else if k % 4 == 2 {
                standardized(market_indices)[k / 4]
            } else {
                standardized(fund_characteristics)[k / 4]
            },
    )
}

/// A matrix of standardized features with four columns, stored row by row.
#[derive(Clone, Debug, PartialEq, Eq)]
pub struct FeatureMatrix {
    /// Number of rows.
    pub rows: usize,
    /// The entries, four for each row.
    pub values: Vec<Fixed>,
}

impl FeatureMatrix {
    /// Whether the matrix holds four entries for each of its rows.
    pub open spec fn well_formed(self) -> bool {
        self.values@.len() == 4 * self.rows
    }

    /// Number of rows.
    pub fn rows(&self) -> (r: usize)
        ensures
            r == self.rows,
    {
        self.rows
    }

    /// The entry in row `row` and column `column`.
    pub fn get(&self, row: usize, column: usize) -> (r: Fixed)
        requires
            self.well_formed(),
            row < self.rows,
            column < 4,
        ensures
            r == self.values@[4 * row + column],
    {
        let entries: usize = self.values.len();
        assert(4 * row + column < entries);
        self.values[4 * row + column]
    }
}

/// No number has two roots.
pub proof fn lemma_root_is_unique(a: int, b: int, n: int)
    requires
        is_root(a, n),
        is_root(b, n),
    ensures
        a == b,
{
    if a < b {
        assert((a + 1) * (a + 1) <= b * b) by (nonlinear_arith)
            requires
                0 <= a,
                a + 1 <= b,
        ;
    } else if b < a {
        assert((b + 1) * (b + 1) <= a * a) by (nonlinear_arith)
            requires
                0 <= b,
                b + 1 <= a,
        ;
    }
}

/// No value of a series lies in a binade above the peak.
pub proof fn lemma_peak_is_largest(series: Seq<Sample>, i: int)
    requires
        0 <= i < series.len(),
    ensures
        binade(series[i].bits) <= peak(series),
    decreases series.len(),
{
    if i < series.len() - 1 {
        lemma_peak_is_largest(series.drop_last(), i);
    }
}

/// The sums over a column whose values are all `v`.
proof fn lemma_constant_sums(values: Seq<int>, v: int)
    requires
        forall|i: int| 0 <= i < values.len() ==> #[trigger] values[i] == v,
    ensures
        whole_sum(values) == values.len() * v,
        square_sum(values, v) == 0,
    decreases values.len(),
{
    if values.len() > 0 {
        let prefix = values.drop_last();
        assert forall|i: int| 0 <= i < prefix.len() implies prefix[i] == v by {
            assert(prefix[i] == values[i]);
        }
        lemma_constant_sums(prefix, v);
        let n = prefix.len() as int;
        assert((n + 1) * v == n * v + v) by (nonlinear_arith);
        assert((v - v) * (v - v) == 0);
    } else {
        assert(0 * v == 0);
    }
}

/// A series whose values are all the same has standard deviation zero, and
/// becomes a column of zeros.
pub proof fn lemma_constant_series_becomes_zero(series: Seq<Sample>)
    requires
        series.len() > 0,
        forall|i: int| 0 <= i < series.len() ==> #[trigger] series[i] == series[0],
    ensures
        spread(column_units(series)) == 0,
        forall|i: int| 0 <= i < series.len() ==> (#[trigger] standardized(series)[i])@ == 0,
{
    let values = column_units(series);
    let v = values[0];
    let n = values.len() as int;
    assert forall|i: int| 0 <= i < values.len() implies values[i] == v by {
        assert(series[i] == series[0]);
    }
    lemma_constant_sums(values, v);
    let size = if v >= 0 {
        v
    } else {
        -v
    };
    assert(whole_sum(values) == v * n) by (nonlinear_arith)
        requires
            whole_sum(values) == n * v,
    ;
    assert((if v * n >= 0 {
        v * n
    } else {
        -(v * n)
    }) == size * n) by (nonlinear_arith)
        requires
            size == v || size == -v,
            v >= 0 ==> size == v,
            v < 0 ==> size == -v,
            n > 0,
    ;
    lemma_div_by_multiple(size, n);
    assert(v * n >= 0 <==> v >= 0) by (nonlinear_arith)
        requires
            n > 0,
    ;
    assert(center(values) == v);
    lemma_basic_div(0, n);
    assert(spread(values) == 0);
    assert forall|i: int| 0 <= i < series.len() implies (#[trigger] standardized(series)[i])@
        == 0 by {}
}

/// The square root of `n` rounded down.
pub fn integer_root(n: u128) -> (r: u128)
    ensures
        r == root(n as int),
        r < 0x1_0000_0000_0000_0000,
{
    if n == 0 {
        return 0;
    }
    let mut low: u128 = 0;
    let mut high: u128 = 0x1_0000_0000_0000_0000;
    while high - low > 1
        invariant
            low < high <= 0x1_0000_0000_0000_0000,
            low * low <= n,
            n < high * high,
        decreases high - low,
    {
        let middle: u128 = low + (high - low) / 2;
        proof {
            assert(middle * middle < 0x1_0000_0000_0000_0000_0000_0000_0000_0000)
                by (nonlinear_arith)
                requires
                    0 <= middle < 0x1_0000_0000_0000_0000,
            ;
        }
        if middle * middle <= n {
            low = middle;
        } else {
            high = middle;
        }
    }
    proof {
        assert(is_root(low as int, n as int));
        lemma_root_is_unique(low as int, root(n as int), n as int);
    }
    low
}

/// The binade of a finite value.
fn binade_of(sample: &Sample) -> (b: u64)
    ensures
        b == binade(sample.bits),
        b <= 2046,
{
    let e: u64 = (sample.bits % 0x8000_0000_0000_0000) / 0x10_0000_0000_0000;
    if e == 0 {
        0
    } else {
        e - 1
    }
}

/// The unit in which a column is counted.
fn unit_of(series: &[Sample]) -> (unit: u64)
    ensures
        unit == column_unit(series@),
        unit <= 2046,
{
    let mut top: u64 = 0;
    let mut i: usize = 0;
    while i < series.len()
        invariant
            i <= series.len(),
            top == peak(series@.take(i as int)),
            top <= 2046,
        decreases series.len() - i,
    {
        proof {
            assert(series@.take(i + 1).drop_last() =~= series@.take(i as int));
        }
        let b: u64 = binade_of(&series[i]);
        if b > top {
            top = b;
        }
        i += 1;
    }
    proof {
        assert(series@.take(series.len() as int) =~= series@);
    }
    if top >= 9 {
        top - 9
    } else {
        0
    }
}

/// A value in units of 2^(`unit` - 1074), rounded toward zero.
fn scaled(sample: &Sample, unit: u64) -> (r: i64)
    requires
        binade(sample.bits) <= unit + 9,
        unit <= 2046,
    ensures
        r == scaled_units(sample.bits, unit as nat),
        -0x4000_0000_0000_0000 < r < 0x4000_0000_0000_0000,
{
    let mag: u64 = sample.bits % 0x8000_0000_0000_0000;
    let e: u64 = mag / 0x10_0000_0000_0000;
    let f: u64 = mag % 0x10_0000_0000_0000;
    let sig: u64 = if e == 0 {
        f
    } else {
        0x10_0000_0000_0000 + f
    };
    let b: u64 = if e == 0 {
        0
    } else {
        e - 1
    };
    proof {
        lemma_whole_units_by_shift(sample.bits, unit as nat);
        lemma2_to64();
        lemma2_to64_rest();
    }
    let whole: u64 = if b >= unit {
        let k: u64 = b - unit;
        proof {
            lemma_pow2_at_least(k as nat, 9);
            lemma_mul_inequality(pow2(k as nat) as int, 0x200, sig as int);
            lemma_mul_is_commutative(sig as int, pow2(k as nat) as int);
            lemma_mul_is_commutative(sig as int, 0x200);
            lemma_u64_shl_is_mul(sig, k);
        }
        sig << k
    } else {
        let k: u64 = unit - b;
        if k >= 53 {
            proof {
                lemma_pow2_at_least(53, k as nat);
                lemma_basic_div(sig as int, pow2(k as nat) as int);
            }
            0
        } else {
            proof {
                lemma_u64_shr_is_div(sig, k);
                lemma_pow2_pos(k as nat);
                lemma_div_nonincreasing(sig as int, pow2(k as nat) as int);
            }
            sig >> k
        }
    };
    if sample.bits >= 0x8000_0000_0000_0000 {
        -(whole as i64)
    } else {
        whole as i64
    }
}

/// The values of a series in units of the column.
fn to_column(series: &[Sample]) -> (values: Vec<i64>)
    ensures
        values@.len() == series@.len(),
        forall|j: int| 0 <= j < values@.len() ==> #[trigger] values@[j] == column_units(series@)[j],
        forall|j: int|
            0 <= j < values@.len() ==> -0x4000_0000_0000_0000 < #[trigger] values@[j]
                < 0x4000_0000_0000_0000,
{
    let unit: u64 = unit_of(series);
    let mut values: Vec<i64> = Vec::new();
    let mut i: usize = 0;
    while i < series.len()
        invariant
            i <= series.len(),
            values@.len() == i,
            unit == column_unit(series@),
            unit <= 2046,
            forall|j: int| 0 <= j < i ==> #[trigger] values@[j] == column_units(series@)[j],
            forall|j: int|
                0 <= j < i ==> -0x4000_0000_0000_0000 < #[trigger] values@[j]
                    < 0x4000_0000_0000_0000,
        decreases series.len() - i,
    {
        proof {
            lemma_peak_is_largest(series@, i as int);
        }
        values.push(scaled(&series[i], unit));
        i += 1;
    }
    values
}

/// The views of the whole numbers of a vector.
pub open spec fn wholes(values: Seq<i64>) -> Seq<int> {
    Seq::new(values.len(), |i: int| values[i] as int)
}

/// Mean of a non-empty vector of whole numbers below 2^62 in magnitude.
fn center_of(values: &Vec<i64>) -> (c: i64)
    requires
        values@.len() > 0,
        forall|j: int|
            0 <= j < values@.len() ==> -0x4000_0000_0000_0000 < #[trigger] values@[j]
                < 0x4000_0000_0000_0000,
    ensures
        c == center(wholes(values@)),
        -0x4000_0000_0000_0000 < c < 0x4000_0000_0000_0000,
{
    let mut acc: i128 = 0;
    let mut i: usize = 0;
    while i < values.len()
        invariant
            i <= values.len(),
            acc == whole_sum(wholes(values@).take(i as int)),
            -i * 0x4000_0000_0000_0000 <= acc <= i * 0x4000_0000_0000_0000,
            i > 0 ==> -i * 0x4000_0000_0000_0000 < acc < i * 0x4000_0000_0000_0000,
            forall|j: int|
                0 <= j < values@.len() ==> -0x4000_0000_0000_0000 < #[trigger] values@[j]
                    < 0x4000_0000_0000_0000,
        decreases values.len() - i,
    {
        proof {
            assert(wholes(values@).take(i + 1).drop_last() =~= wholes(values@).take(i as int));
        }
        acc = acc + values[i] as i128;
        i += 1;
    }
    proof {
        assert(wholes(values@).take(values.len() as int) =~= wholes(values@));
    }
    let n: i128 = values.len() as i128;
    let q: i128 = quotient_wide(acc, n);
    proof {
        let size = if acc >= 0 {
            acc as int
        } else {
            -(acc as int)
        };
        assert(size / (n as int) < 0x4000_0000_0000_0000) by (nonlinear_arith)
            requires
                0 <= size < n * 0x4000_0000_0000_0000,
                n >= 1,
        ;
        assert(size / (n as int) >= 0) by (nonlinear_arith)
            requires
                0 <= size,
                n >= 1,
        ;
    }
    q as i64
}

/// The mean of the squared deviations of whole numbers from `middle`,
/// rounded down.
fn mean_square(values: &Vec<i64>, middle: i64) -> (m: u128)
    requires
        values@.len() > 0,
        -0x4000_0000_0000_0000 < middle < 0x4000_0000_0000_0000,
        forall|j: int|
            0 <= j < values@.len() ==> -0x4000_0000_0000_0000 < #[trigger] values@[j]
                < 0x4000_0000_0000_0000,
    ensures
        m == square_sum(wholes(values@), middle as int) / (values@.len() as int),
{
    let n: u128 = values.len() as u128;
    // The squares are summed as whole multiples of `n` and what is left over,
    // so that neither sum leaves 128 bits however long the series is.
    let mut multiples: u128 = 0;
    let mut left: u128 = 0;
    let mut i: usize = 0;
    while i < values.len()
        invariant
            i <= values.len(),
            n == values@.len(),
            n >= 1,
            n * multiples + left == square_sum(wholes(values@).take(i as int), middle as int),
            n * multiples + left <= i * 0x4000_0000_0000_0000_0000_0000_0000_0000,
            left <= i * (n - 1),
            -0x4000_0000_0000_0000 < middle < 0x4000_0000_0000_0000,
            forall|j: int|
                0 <= j < values@.len() ==> -0x4000_0000_0000_0000 < #[trigger] values@[j]
                    < 0x4000_0000_0000_0000,
        decreases values.len() - i,
    {
        let d: i128 = values[i] as i128 - middle as i128;
        let size: u128 = if d >= 0 {
            d as u128
        } else {
            (-d) as u128
        };
        proof {
            assert(size * size < 0x4000_0000_0000_0000_0000_0000_0000_0000) by (nonlinear_arith)
                requires
                    0 <= size < 0x8000_0000_0000_0000,
            ;
            assert(size * size == (d as int) * (d as int)) by (nonlinear_arith)
                requires
                    size == d || size == -d,
            ;
        }
        let square: u128 = size * size;
        let whole: u128 = square / n;
        let over: u128 = square % n;
        proof {
            let before = wholes(values@).take(i as int);
            let after = wholes(values@).take(i + 1);
            assert(after.drop_last() =~= before);
            assert(after.last() == values@[i as int] as int);
            lemma_fundamental_div_mod(square as int, n as int);
            let top = 0x4000_0000_0000_0000_0000_0000_0000_0000int;
            let count = i as int;
            let len = n as int;
            let m = multiples as int;
            let w = whole as int;
            assert(len * (m + w) == len * m + len * w) by (nonlinear_arith);
            assert(m <= top) by (nonlinear_arith)
                requires
                    len * m <= count * top,
                    0 <= count < len,
                    m >= 0,
                    top > 0,
            ;
            assert(w <= square) by (nonlinear_arith)
                requires
                    square == len * w + over,
                    over >= 0,
                    w >= 0,
                    len >= 1,
            ;
            assert((count + 1) * top == count * top + top) by (nonlinear_arith);
            assert((count + 1) * (len - 1) == count * (len - 1) + (len - 1)) by (nonlinear_arith);
            assert((count + 1) * (len - 1) < 0x1_0000_0000_0000_0000_0000_0000_0000_0000)
                by (nonlinear_arith)
                requires
                    0 <= count < len,
                    1 <= len < 0x1_0000_0000_0000_0000,
            ;
        }
        multiples = multiples + whole;
        left = left + over;
        i += 1;
    }
    proof {
        assert(wholes(values@).take(values.len() as int) =~= wholes(values@));
        lemma_hoist_over_denominator(left as int, multiples as int, n as nat);
        let top = 0x4000_0000_0000_0000_0000_0000_0000_0000int;
        let len = n as int;
        let m = multiples as int;
        assert(m * len == len * m) by (nonlinear_arith);
        assert(m <= top) by (nonlinear_arith)
            requires
                len * m <= len * top,
                len >= 1,
                m >= 0,
        ;
        assert(len * (len - 1) == (len - 1) * len) by (nonlinear_arith);
        lemma_div_is_ordered(left as int, (len - 1) * len, len);
        lemma_div_multiples_vanish(len - 1, len);
    }
    multiples + left / n
}

/// A non-empty series of finite observations, standardized.
pub fn standardize(series: &[Sample]) -> (r: Vec<Fixed>)
    requires
        series.len() > 0,
    ensures
        r@ == standardized(series@),
{
    let values = to_column(series);
    assert(wholes(values@) =~= column_units(series@));
    let middle: i64 = center_of(&values);
    let variance: u128 = mean_square(&values, middle);
    let divisor: u128 = integer_root(variance);
    let mut r: Vec<Fixed> = Vec::new();
    let mut i: usize = 0;
    while i < values.len()
        invariant
            i <= values.len(),
            r@.len() == i,
            values@.len() == series@.len(),
            wholes(values@) == column_units(series@),
            middle == center(wholes(values@)),
            divisor == spread(wholes(values@)),
            divisor < 0x1_0000_0000_0000_0000,
            -0x4000_0000_0000_0000 < middle < 0x4000_0000_0000_0000,
            forall|j: int|
                0 <= j < values@.len() ==> -0x4000_0000_0000_0000 < #[trigger] values@[j]
                    < 0x4000_0000_0000_0000,
            forall|j: int| 0 <= j < i ==> r@[j] == #[trigger] standardized(series@)[j],
        decreases values.len() - i,
    {
        if divisor == 0 {
            r.push(Fixed::zero());
        } else {
            let d: i128 = values[i] as i128 - middle as i128;
            assert(wholes(values@)[i as int] == values@[i as int]);
            r.push(clamp_wide(quotient_wide(d * 0x1_0000_0000i128, divisor as i128)));
        }
        i += 1;
    }
    assert(r@ =~= standardized(series@));
    r
}

/// Builds the feature matrix of four series.
///
/// The series are checked first, as for an allocation. For valid series
/// the matrix has one row per day and the columns daily returns, cash
/// flows, market indices and fund characteristics, each standardized. A
/// column whose values are all equal has standard deviation zero and
/// becomes a column of zeros.
pub fn extract_features(
    daily_returns: &[Sample],
    cash_flows: &[Sample],
    market_indices: &[Sample],
    fund_characteristics: &[Sample],
) -> (result: Result<FeatureMatrix, AllocationError>)
    ensures
        match verdict(daily_returns@, cash_flows@, market_indices@, fund_characteristics@) {
            Some(error) => result == Err::<FeatureMatrix, AllocationError>(error),
            None => result is Ok && result->Ok_0.well_formed() && result->Ok_0.rows
                == daily_returns@.len() && result->Ok_0.values@ == feature_values(
                daily_returns@,
                cash_flows@,
                market_indices@,
                fund_characteristics@,
            ),
        },
{
    match validate_inputs(daily_returns, cash_flows, market_indices, fund_characteristics) {
        Err(error) => {
            return Err(error);
        },
        Ok(_) => {},
    }
    let rows: usize = daily_returns.len();
    let first = standardize(daily_returns);
    let second = standardize(cash_flows);
    let third = standardize(market_indices);
    let fourth = standardize(fund_characteristics);
    let mut values: Vec<Fixed> = Vec::new();
    let mut i: usize = 0;
    while i < rows
        invariant
            i <= rows,
            rows == daily_returns@.len(),
            rows == cash_flows@.len(),
            rows == market_indices@.len(),
            rows == fund_characteristics@.len(),
            values@.len() == 4 * i,
            first@ == standardized(daily_returns@),
            second@ == standardized(cash_flows@),
            third@ == standardized(market_indices@),
            fourth@ == standardized(fund_characteristics@),
            forall|k: int|
                0 <= k < 4 * i ==> values@[k] == #[trigger] feature_values(
                    daily_returns@,
                    cash_flows@,
                    market_indices@,
                    fund_characteristics@,
                )[k],
        decreases rows - i,
    {
        values.push(first[i]);
        values.push(second[i]);
        values.push(third[i]);
        values.push(fourth[i]);
        i += 1;
    }
    assert(values@ =~= feature_values(
        daily_returns@,
        cash_flows@,
        market_indices@,
        fund_characteristics@,
    ));
    Ok(FeatureMatrix { rows, values })
}

} // verus!
