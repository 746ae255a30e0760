//! What holds of every allocation.
//!
//! The proofs here speak only of the specification functions that the
//! contracts of the engine use, so each statement is a statement about what
//! `calculate_optimal_allocation` returns.

use vstd::prelude::*;
use vstd::arithmetic::div_mod::{lemma_div_by_multiple, lemma_div_is_ordered, lemma_div_pos_is_pos};
use vstd::arithmetic::power2::{lemma2_to64, lemma_pow2_adds, lemma_pow2_pos, pow2};
use crate::errors::AllocationError;
use crate::numeric::fixed::{magnitude, scale, Share};
use crate::numeric::sample::{
    binade,
    fixed_units,
    lemma_cash_flow_limit_is_one_million,
    lemma_return_limit_is_one,
    significand,
    Sample,
    CASH_FLOW_LIMIT_BITS,
    RETURN_LIMIT_BITS,
};
use crate::numeric::fixed::Fixed;
use crate::utils::calculations::{allocation, outcome, predictions, AuxiliaryView};
use crate::utils::normalization::{
    floor_share,
    lemma_floor_share,
    lemma_share_fits,
    lemma_shares_sum_to_one,
    lemma_shortfall_bounds,
    normalized,
    share_of,
    share_sum,
    sum,
};
use crate::utils::validation::{
    any_not_finite,
    same_lengths,
    some_empty,
    some_not_finite,
    valid_inputs,
};

verus! {

/// The result has one weight for each forecast day.
pub proof fn lemma_allocation_has_one_weight_per_day(
    daily_returns: Seq<Sample>,
    cash_flows: Seq<Sample>,
    num_days: nat,
    auxiliary: AuxiliaryView,
)
    ensures
        allocation(daily_returns, cash_flows, num_days, auxiliary).len() == num_days,
{
}

/// Where the weights before normalization sum to zero, every weight of the
/// result is zero.
pub proof fn lemma_zero_total_gives_zero_weights(weights: Seq<Fixed>)
    requires
        sum(weights) == 0,
    ensures
        normalized(weights).len() == weights.len(),
        forall|i: int| 0 <= i < weights.len() ==> (#[trigger] normalized(weights)[i])@ == 0,
{
}

/// Where the weights before normalization do not sum to zero, each share
/// is the weight divided by the sum, up to one unit of 2^-32: the share
/// times the sum misses the weight times one by no more than the sum.
pub proof fn lemma_share_is_weight_over_sum(weights: Seq<Fixed>, i: int)
    requires
        sum(weights) != 0,
        0 <= i < weights.len(),
    ensures
        magnitude(normalized(weights)[i]@ * sum(weights) - weights[i]@ * scale()) <= magnitude(
            sum(weights),
        ),
{
    let total = sum(weights);
    let w = weights[i]@;
    let f = floor_share(w, total);
    let share = share_of(weights, i)@;
    lemma_floor_share(w, total);
    lemma_share_fits(weights, i);
    lemma_shortfall_bounds(weights);
    let s = scale();
    if total > 0 {
        assert(-total <= share * total - w * s <= total) by (nonlinear_arith)
            requires
                total * f <= w * s,
                w * s < total * f + total,
                share == f || share == f + 1,
                total > 0,
        ;
    } else {
        assert(total <= share * total - w * s <= -total) by (nonlinear_arith)
            requires
                (-total) * f <= (-w) * s,
                (-w) * s < (-total) * f + (-total),
                share == f || share == f + 1,
                total < 0,
        ;
    }
}

/// For valid inputs the engine returns one weight per forecast day. The
/// weights are all zero where the products sum to zero. Else they sum to
/// one exactly, and so within one part in a million, however many days
/// there are and whatever the collaborators produced.
pub proof fn lemma_valid_inputs_give_normalized_weights(
    daily_returns: Seq<Sample>,
    cash_flows: Seq<Sample>,
    market_indices: Seq<Sample>,
    fund_characteristics: Seq<Sample>,
    num_days: nat,
    auxiliary: AuxiliaryView,
)
    requires
        valid_inputs(daily_returns, cash_flows, market_indices, fund_characteristics),
    ensures
        ({
            let result = outcome(
                daily_returns,
                cash_flows,
                market_indices,
                fund_characteristics,
                num_days,
                auxiliary,
            );
            let weights = predictions(daily_returns, cash_flows, num_days, auxiliary);
            &&& result is Ok
            &&& result->Ok_0.len() == num_days
            &&& sum(weights) == 0 ==> forall|i: int|
                0 <= i < num_days ==> (#[trigger] result->Ok_0[i])@ == 0
            &&& sum(weights) != 0 ==> share_sum(result->Ok_0) == scale()
            &&& sum(weights) != 0 ==> magnitude(share_sum(result->Ok_0) - scale()) * 1_000_000
                < scale()
        }),
{
    let weights = predictions(daily_returns, cash_flows, num_days, auxiliary);
    if sum(weights) == 0 {
        lemma_zero_total_gives_zero_weights(weights);
    } else {
        lemma_shares_sum_to_one(weights);
    }
}

/// A finite value that is not beyond the cash-flow limit keeps its size
/// when it becomes a fixed-point number: it is rounded toward zero to a
/// whole number of units of 2^-32 and lies within one million either way,
/// far from the ends of the fixed-point range. The same holds of a daily
/// return, whose limit is smaller. So the histories that the engine
/// averages are those of the caller for every valid input.
pub proof fn lemma_conversion_covers_valid_values(value: Sample)
    requires
        value.finite(),
        !value.beyond(Sample { bits: CASH_FLOW_LIMIT_BITS }),
    ensures
        value.fixed()@ == fixed_units(value.bits),
        -1_000_000 * scale() <= value.fixed()@ <= 1_000_000 * scale(),
{
    lemma_cash_flow_limit_is_one_million();
    lemma2_to64();
    lemma_pow2_adds(32, 1042);
    lemma_pow2_pos(1042);
    let unit = pow2(1042) as int;
    let size = value.absolute();
    assert(size >= 0) by {
        lemma_pow2_pos(binade(value.bits));
        assert(significand(value.bits) * pow2(binade(value.bits)) >= 0) by (nonlinear_arith)
            requires
                significand(value.bits) >= 0,
                pow2(binade(value.bits)) > 0,
        ;
    }
    assert(1_000_000 * pow2(1074) == (1_000_000 * scale()) * unit) by (nonlinear_arith)
        requires
            pow2(1074) == scale() * unit,
    ;
    lemma_div_is_ordered(size, (1_000_000 * scale()) * unit, unit);
    lemma_div_by_multiple(1_000_000 * scale(), unit);
    lemma_div_pos_is_pos(size, unit);
}

/// Series of different lengths are rejected as mismatched, whatever else
/// holds of them and whatever the horizon.
pub proof fn lemma_mismatched_lengths_are_rejected(
    daily_returns: Seq<Sample>,
    cash_flows: Seq<Sample>,
    market_indices: Seq<Sample>,
    fund_characteristics: Seq<Sample>,
    num_days: nat,
    auxiliary: AuxiliaryView,
)
    requires
        !same_lengths(daily_returns, cash_flows, market_indices, fund_characteristics),
    ensures
        outcome(
            daily_returns,
            cash_flows,
            market_indices,
            fund_characteristics,
            num_days,
            auxiliary,
        ) == Err::<Seq<Share>, AllocationError>(AllocationError::InputMismatch),
{
}

/// Series of one length are rejected as empty where that length is zero.
pub proof fn lemma_empty_series_are_rejected(
    daily_returns: Seq<Sample>,
    cash_flows: Seq<Sample>,
    market_indices: Seq<Sample>,
    fund_characteristics: Seq<Sample>,
    num_days: nat,
    auxiliary: AuxiliaryView,
)
    requires
        same_lengths(daily_returns, cash_flows, market_indices, fund_characteristics),
        some_empty(daily_returns, cash_flows, market_indices, fund_characteristics),
    ensures
        outcome(
            daily_returns,
            cash_flows,
            market_indices,
            fund_characteristics,
            num_days,
            auxiliary,
        ) == Err::<Seq<Share>, AllocationError>(AllocationError::EmptyInput),
{
}

/// Series of one length are rejected as invalid where a daily return or a
/// cash flow is a NaN or an infinity.
pub proof fn lemma_values_not_finite_are_rejected(
    daily_returns: Seq<Sample>,
    cash_flows: Seq<Sample>,
    market_indices: Seq<Sample>,
    fund_characteristics: Seq<Sample>,
    num_days: nat,
    auxiliary: AuxiliaryView,
)
    requires
        same_lengths(daily_returns, cash_flows, market_indices, fund_characteristics),
        any_not_finite(daily_returns) || any_not_finite(cash_flows),
    ensures
        outcome(
            daily_returns,
            cash_flows,
            market_indices,
            fund_characteristics,
            num_days,
            auxiliary,
        ) == Err::<Seq<Share>, AllocationError>(AllocationError::InvalidData),
{
}

/// Finite series of one length are rejected as outliers where a daily
/// return is greater in magnitude than one.
pub proof fn lemma_large_returns_are_rejected(
    daily_returns: Seq<Sample>,
    cash_flows: Seq<Sample>,
    market_indices: Seq<Sample>,
    fund_characteristics: Seq<Sample>,
    num_days: nat,
    auxiliary: AuxiliaryView,
    day: int,
)
    requires
        same_lengths(daily_returns, cash_flows, market_indices, fund_characteristics),
        !some_not_finite(daily_returns, cash_flows, market_indices, fund_characteristics),
        0 <= day < daily_returns.len(),
        daily_returns[day].absolute() > pow2(1074),
    ensures
        outcome(
            daily_returns,
            cash_flows,
            market_indices,
            fund_characteristics,
            num_days,
            auxiliary,
        ) == Err::<Seq<Share>, AllocationError>(AllocationError::OutlierData),
{
    lemma_return_limit_is_one();
    assert(daily_returns[day].finite());
    assert(daily_returns[day].beyond(Sample { bits: RETURN_LIMIT_BITS }));
}

/// Finite series of one length are rejected as outliers where a cash flow
/// is greater in magnitude than one million.
pub proof fn lemma_large_cash_flows_are_rejected(
    daily_returns: Seq<Sample>,
    cash_flows: Seq<Sample>,
    market_indices: Seq<Sample>,
    fund_characteristics: Seq<Sample>,
    num_days: nat,
    auxiliary: AuxiliaryView,
    day: int,
)
    requires
        same_lengths(daily_returns, cash_flows, market_indices, fund_characteristics),
        !some_not_finite(daily_returns, cash_flows, market_indices, fund_characteristics),
        0 <= day < cash_flows.len(),
        cash_flows[day].absolute() > 1_000_000 * pow2(1074),
    ensures
        outcome(
            daily_returns,
            cash_flows,
            market_indices,
            fund_characteristics,
            num_days,
            auxiliary,
        ) == Err::<Seq<Share>, AllocationError>(AllocationError::OutlierData),
{
    lemma_cash_flow_limit_is_one_million();
    assert(cash_flows[day].finite());
    assert(cash_flows[day].beyond(Sample { bits: CASH_FLOW_LIMIT_BITS }));
}

/// The result depends on nothing but the contents of the four series, the
/// horizon and what the engine reads of the auxiliary data: two calls that
/// agree on these return the same.
pub proof fn lemma_same_inputs_give_same_result(
    first: (Seq<Sample>, Seq<Sample>, Seq<Sample>, Seq<Sample>),
    second: (Seq<Sample>, Seq<Sample>, Seq<Sample>, Seq<Sample>),
    num_days: nat,
    first_auxiliary: AuxiliaryView,
    second_auxiliary: AuxiliaryView,
)
    requires
        first.0 =~= second.0,
        first.1 =~= second.1,
        first.2 =~= second.2,
        first.3 =~= second.3,
        first_auxiliary.forecasted_returns =~~= second_auxiliary.forecasted_returns,
        first_auxiliary.forecasted_cash_flows =~~= second_auxiliary.forecasted_cash_flows,
        first_auxiliary.sentiment_scores =~= second_auxiliary.sentiment_scores,
        first_auxiliary.optimal_actions =~= second_auxiliary.optimal_actions,
        first_auxiliary.clusters =~~= second_auxiliary.clusters,
    ensures
        outcome(first.0, first.1, first.2, first.3, num_days, first_auxiliary) == outcome(
            second.0,
            second.1,
            second.2,
            second.3,
            num_days,
            second_auxiliary,
        ),
{
    assert(first_auxiliary == second_auxiliary);
}

} // verus!
