//! Checks made on the four input series before anything is computed.
//!
//! The checks run in a fixed order and the first one that fails decides the
//! error: lengths, emptiness, values that are not finite, outliers.

use vstd::prelude::*;
use crate::errors::AllocationError;
use crate::numeric::sample::{Sample, CASH_FLOW_LIMIT_BITS, RETURN_LIMIT_BITS};

verus! {

/// Whether some element of the series is a NaN or an infinity.
pub open spec fn any_not_finite(series: Seq<Sample>) -> bool {
    exists|i: int| 0 <= i < series.len() && !(#[trigger] series[i]).finite()
}

/// Whether some element of the series is greater in magnitude than `limit`.
pub open spec fn any_beyond(series: Seq<Sample>, limit: Sample) -> bool {
    exists|i: int| 0 <= i < series.len() && (#[trigger] series[i]).beyond(limit)
}

/// Whether the four series have one common length.
pub open spec fn same_lengths(
    daily_returns: Seq<Sample>,
    cash_flows: Seq<Sample>,
    market_indices: Seq<Sample>,
    fund_characteristics: Seq<Sample>,
) -> bool {
    daily_returns.len() == cash_flows.len() && cash_flows.len() == market_indices.len()
        && market_indices.len() == fund_characteristics.len()
}

/// Whether one of the four series is empty.
pub open spec fn some_empty(
    daily_returns: Seq<Sample>,
    cash_flows: Seq<Sample>,
    market_indices: Seq<Sample>,
    fund_characteristics: Seq<Sample>,
) -> bool {
    daily_returns.len() == 0 || cash_flows.len() == 0 || market_indices.len() == 0
        || fund_characteristics.len() == 0
}

/// Whether one of the four series holds a NaN or an infinity.
pub open spec fn some_not_finite(
    daily_returns: Seq<Sample>,
    cash_flows: Seq<Sample>,
    market_indices: Seq<Sample>,
    fund_characteristics: Seq<Sample>,
) -> bool {
    any_not_finite(daily_returns) || any_not_finite(cash_flows) || any_not_finite(market_indices)
        || any_not_finite(fund_characteristics)
}

/// Whether a daily return is greater in magnitude than 1.0 or a cash flow
/// than 1,000,000.0.
pub open spec fn some_outlier(daily_returns: Seq<Sample>, cash_flows: Seq<Sample>) -> bool {
    any_beyond(daily_returns, Sample { bits: RETURN_LIMIT_BITS }) || any_beyond(
        cash_flows,
        Sample { bits: CASH_FLOW_LIMIT_BITS },
    )
}

/// The error with which the four series are rejected, if any.
pub open spec fn verdict(
    daily_returns: Seq<Sample>,
    cash_flows: Seq<Sample>,
    market_indices: Seq<Sample>,
    fund_characteristics: Seq<Sample>,
) -> Option<AllocationError> {
    if !same_lengths(daily_returns, cash_flows, market_indices, fund_characteristics) {
        Some(AllocationError::InputMismatch)
    } else if some_empty(daily_returns, cash_flows, market_indices, fund_characteristics) {
        Some(AllocationError::EmptyInput)
    } else if some_not_finite(daily_returns, cash_flows, market_indices, fund_characteristics) {
        Some(AllocationError::InvalidData)
    } else if some_outlier(daily_returns, cash_flows) {
        Some(AllocationError::OutlierData)
    } else {
        None
    }
}

/// Whether the four series pass every check.
pub open spec fn valid_inputs(
    daily_returns: Seq<Sample>,
    cash_flows: Seq<Sample>,
    market_indices: Seq<Sample>,
    fund_characteristics: Seq<Sample>,
) -> bool {
    verdict(daily_returns, cash_flows, market_indices, fund_characteristics) is None
}

/// Rejects series of different lengths.
pub fn check_input_lengths(
    daily_returns: &[Sample],
    cash_flows: &[Sample],
    market_indices: &[Sample],
    fund_characteristics: &[Sample],
) -> (r: Result<(), AllocationError>)
    ensures
        same_lengths(daily_returns@, cash_flows@, market_indices@, fund_characteristics@) ==> r
            == Ok::<(), AllocationError>(()),
        !same_lengths(daily_returns@, cash_flows@, market_indices@, fund_characteristics@) ==> r
            == Err::<(), AllocationError>(AllocationError::InputMismatch),
{
    if daily_returns.len() != cash_flows.len() || cash_flows.len() != market_indices.len()
        || market_indices.len() != fund_characteristics.len() {
        Err(AllocationError::InputMismatch)
    } else {
        Ok(())
    }
}

/// Rejects an empty series.
pub fn check_empty_inputs(
    daily_returns: &[Sample],
    cash_flows: &[Sample],
    market_indices: &[Sample],
    fund_characteristics: &[Sample],
) -> (r: Result<(), AllocationError>)
    ensures
        !some_empty(daily_returns@, cash_flows@, market_indices@, fund_characteristics@) ==> r
            == Ok::<(), AllocationError>(()),
        some_empty(daily_returns@, cash_flows@, market_indices@, fund_characteristics@) ==> r
            == Err::<(), AllocationError>(AllocationError::EmptyInput),
{
    if daily_returns.len() == 0 || cash_flows.len() == 0 || market_indices.len() == 0
        || fund_characteristics.len() == 0 {
        Err(AllocationError::EmptyInput)
    } else {
        Ok(())
    }
}

/// Whether some element of the series is a NaN or an infinity.
pub fn has_invalid_data(series: &[Sample]) -> (r: bool)
    ensures
        r == any_not_finite(series@),
{
    let mut i: usize = 0;
    while i < series.len()
        invariant
            i <= series.len(),
            forall|j: int| 0 <= j < i ==> (#[trigger] series@[j]).finite(),
        decreases series.len() - i,
    {
        if !series[i].is_finite() {
            return true;
        }
        i += 1;
    }
    false
}

/// Whether some element of the series is greater in magnitude than `limit`.
pub fn has_outliers(series: &[Sample], limit: Sample) -> (r: bool)
    ensures
        r == any_beyond(series@, limit),
{
    let mut i: usize = 0;
    while i < series.len()
        invariant
            i <= series.len(),
            forall|j: int| 0 <= j < i ==> !(#[trigger] series@[j]).beyond(limit),
        decreases series.len() - i,
    {
        if series[i].exceeds(limit) {
            return true;
        }
        i += 1;
    }
    false
}

/// Rejects a series that holds a NaN or an infinity.
pub fn check_invalid_data(
    daily_returns: &[Sample],
    cash_flows: &[Sample],
    market_indices: &[Sample],
    fund_characteristics: &[Sample],
) -> (r: Result<(), AllocationError>)
    ensures
        !some_not_finite(daily_returns@, cash_flows@, market_indices@, fund_characteristics@)
            ==> r == Ok::<(), AllocationError>(()),
        some_not_finite(daily_returns@, cash_flows@, market_indices@, fund_characteristics@) ==> r
            == Err::<(), AllocationError>(AllocationError::InvalidData),
{
    if has_invalid_data(daily_returns) || has_invalid_data(cash_flows) || has_invalid_data(
        market_indices,
    ) || has_invalid_data(fund_characteristics) {
        Err(AllocationError::InvalidData)
    } else {
        Ok(())
    }
}

/// Rejects a series with an element greater in magnitude than `limit`.
pub fn check_outliers(limit: Sample, series: &[Sample]) -> (r: Result<(), AllocationError>)
    ensures
        !any_beyond(series@, limit) ==> r == Ok::<(), AllocationError>(()),
        any_beyond(series@, limit) ==> r == Err::<(), AllocationError>(
            AllocationError::OutlierData,
        ),
{
    if has_outliers(series, limit) {
        Err(AllocationError::OutlierData)
    } else {
        Ok(())
    }
}

/// Runs every check on the four series, in order, and reports the first
/// that fails.
pub fn validate_inputs(
    daily_returns: &[Sample],
    cash_flows: &[Sample],
    market_indices: &[Sample],
    fund_characteristics: &[Sample],
) -> (r: Result<(), AllocationError>)
    ensures
        match verdict(daily_returns@, cash_flows@, market_indices@, fund_characteristics@) {
            Some(e) => r == Err::<(), AllocationError>(e),
            None => r == Ok::<(), AllocationError>(()),
        },
{
    match check_input_lengths(daily_returns, cash_flows, market_indices, fund_characteristics) {
        Err(e) => {
            return Err(e);
        },
        Ok(_) => {},
    }
    match check_empty_inputs(daily_returns, cash_flows, market_indices, fund_characteristics) {
        Err(e) => {
            return Err(e);
        },
        Ok(_) => {},
    }
    match check_invalid_data(daily_returns, cash_flows, market_indices, fund_characteristics) {
        Err(e) => {
            return Err(e);
        },
        Ok(_) => {},
    }
    match check_outliers(Sample::return_limit(), daily_returns) {
        Err(e) => {
            return Err(e);
        },
        Ok(_) => {},
    }
    check_outliers(Sample::cash_flow_limit(), cash_flows)
}

} // verus!
