//! The allocation engine.
//!
//! Given four validated series, a horizon and the results of the outside
//! collaborators (two forecasts, two signal vectors and the regime labels),
//! the engine weighs each forecast day and normalizes the weights so that
//! they sum to one.

use vstd::prelude::*;
use crate::errors::AllocationError;
use crate::numeric::fixed::{clamp_wide, quotient, quotient_wide, Fixed, Share};
use crate::numeric::sample::Sample;
use crate::utils::normalization::{normalize, normalized, sum, total};
use crate::utils::validation::{any_not_finite, has_invalid_data, validate_inputs, verdict};

verus! {

/// What the outside collaborators produced for one computation.
///
/// A forecast or a clustering that failed is kept as the diagnostic of the
/// routine that failed; the engine then falls back on a substitute.
#[derive(Debug, PartialEq, Eq)]
pub struct AuxiliaryData {
    /// Forecast of the daily returns, one value per forecast day.
    pub forecasted_returns: Result<Vec<Fixed>, String>,
    /// Forecast of the cash flows, one value per forecast day.
    pub forecasted_cash_flows: Result<Vec<Fixed>, String>,
    /// Sentiment score of each forecast day.
    pub sentiment_scores: Vec<Fixed>,
    /// Action score of each forecast day.
    pub optimal_actions: Vec<Fixed>,
    /// Regime label of each day of the history.
    pub clusters: Result<Vec<usize>, String>,
}

/// What the engine reads of the auxiliary data: the values, and whether a
/// collaborator failed, but not why.
pub struct AuxiliaryView {
    pub forecasted_returns: Option<Seq<Fixed>>,
    pub forecasted_cash_flows: Option<Seq<Fixed>>,
    pub sentiment_scores: Seq<Fixed>,
    pub optimal_actions: Seq<Fixed>,
    pub clusters: Option<Seq<usize>>,
}

/// The values of a forecast, if the forecaster succeeded.
pub open spec fn forecast_values(outcome: Result<Vec<Fixed>, String>) -> Option<Seq<Fixed>> {
    match outcome {
        Ok(values) => Some(values@),
        Err(_) => None,
    }
}

/// The labels of a clustering, if the clusterer succeeded.
pub open spec fn cluster_labels(outcome: Result<Vec<usize>, String>) -> Option<Seq<usize>> {
    match outcome {
        Ok(labels) => Some(labels@),
        Err(_) => None,
    }
}

impl View for AuxiliaryData {
    type V = AuxiliaryView;

    open spec fn view(&self) -> AuxiliaryView {
        AuxiliaryView {
            forecasted_returns: forecast_values(self.forecasted_returns),
            forecasted_cash_flows: forecast_values(self.forecasted_cash_flows),
            sentiment_scores: self.sentiment_scores@,
            optimal_actions: self.optimal_actions@,
            clusters: cluster_labels(self.clusters),
        }
    }
}

/// Mean of a non-empty sequence of numbers, rounded toward zero.
pub open spec fn mean(values: Seq<Fixed>) -> Fixed
    recommends
        values.len() > 0,
{
    Fixed::of(quotient(sum(values), values.len() as int))
}

/// A series of finite observations as fixed-point numbers.
pub open spec fn history(series: Seq<Sample>) -> Seq<Fixed> {
    Seq::new(series.len(), |i: int| series[i].fixed())
}

/// The value expected on forecast day `day`, counted from one: the
/// forecast where it reaches that far, else the mean of the history times
/// the day.
pub open spec fn projected(forecast: Option<Seq<Fixed>>, average: Fixed, day: int) -> Fixed {
    match forecast {
        Some(values) if day <= values.len() => values[day - 1],
        _ => average.multiple(day),
    }
}

/// The regime labels the engine works with: those of the clusterer, or zero
/// for each of the `days` days of the history if it failed.
pub open spec fn labels_or_neutral(clusters: Option<Seq<usize>>, days: nat) -> Seq<usize> {
    match clusters {
        Some(labels) => labels,
        None => Seq::new(days, |i: int| 0usize),
    }
}

/// The weight of forecast day `day`, counted from one, before
/// normalization. Where a signal or a label is missing for the day, the
/// weight is the bare product of the two expected values.
pub open spec fn prediction(
    day: int,
    predicted_return: Fixed,
    predicted_cash_flow: Fixed,
    sentiment_scores: Seq<Fixed>,
    optimal_actions: Seq<Fixed>,
    labels: Seq<usize>,
) -> Fixed {
    let base = predicted_return.product(predicted_cash_flow);
    if day <= sentiment_scores.len() && day <= optimal_actions.len() && day <= labels.len() {
        base.product(sentiment_scores[day - 1]).product(optimal_actions[day - 1]).multiple(
            labels[day - 1] + 1,
        )
    } else {
        base
    }
}

/// The weights of all forecast days before normalization.
pub open spec fn predictions(
    daily_returns: Seq<Sample>,
    cash_flows: Seq<Sample>,
    num_days: nat,
    auxiliary: AuxiliaryView,
) -> Seq<Fixed> {
    let average_return = mean(history(daily_returns));
    let average_cash_flow = mean(history(cash_flows));
    let labels = labels_or_neutral(auxiliary.clusters, daily_returns.len());
    Seq::new(
        num_days,
        |i: int|
            prediction(
                i + 1,
                projected(auxiliary.forecasted_returns, average_return, i + 1),
                projected(auxiliary.forecasted_cash_flows, average_cash_flow, i + 1),
                auxiliary.sentiment_scores,
                auxiliary.optimal_actions,
                labels,
            ),
    )
}

/// The allocation for valid inputs.
pub open spec fn allocation(
    daily_returns: Seq<Sample>,
    cash_flows: Seq<Sample>,
    num_days: nat,
    auxiliary: AuxiliaryView,
) -> Seq<Share> {
    normalized(predictions(daily_returns, cash_flows, num_days, auxiliary))
}

/// What `calculate_optimal_allocation` returns: the error of the first
/// check that fails, else the allocation.
pub open spec fn outcome(
    daily_returns: Seq<Sample>,
    cash_flows: Seq<Sample>,
    market_indices: Seq<Sample>,
    fund_characteristics: Seq<Sample>,
    num_days: nat,
    auxiliary: AuxiliaryView,
) -> Result<Seq<Share>, AllocationError> {
    match verdict(daily_returns, cash_flows, market_indices, fund_characteristics) {
        Some(error) => Err(error),
        None => Ok(allocation(daily_returns, cash_flows, num_days, auxiliary)),
    }
}

/// Mean of a non-empty sequence of numbers, rounded toward zero.
pub fn average(values: &[Fixed]) -> (m: Fixed)
    requires
        values.len() > 0,
    ensures
        m == mean(values@),
{
    let t: i128 = total(values);
    clamp_wide(quotient_wide(t, values.len() as i128))
}

/// A series of finite observations as fixed-point numbers.
pub fn to_history(series: &[Sample]) -> (values: Vec<Fixed>)
    requires
        !any_not_finite(series@),
    ensures
        values@ == history(series@),
{
    let mut values: Vec<Fixed> = Vec::new();
    let mut i: usize = 0;
    while i < series.len()
        invariant
            i <= series.len(),
            values@.len() == i,
            forall|j: int| 0 <= j < i ==> values@[j] == (#[trigger] series@[j]).fixed(),
            !any_not_finite(series@),
        decreases series.len() - i,
    {
        assert(series@[i as int].finite());
        values.push(series[i].to_fixed());
        i += 1;
    }
    assert(values@ =~= history(series@));
    values
}

/// A series of observations as fixed-point numbers, unless one of them is a
/// NaN or an infinity.
pub fn to_fixed_series(series: &[Sample]) -> (r: Option<Vec<Fixed>>)
    ensures
        any_not_finite(series@) ==> r is None,
        !any_not_finite(series@) ==> r is Some && r->Some_0@ == history(series@),
{
    if has_invalid_data(series) {
        None
    } else {
        Some(to_history(series))
    }
}

/// The result of the forecaster as the engine's callers see it: the
/// forecast, or a forecasting error that carries the diagnostic.
pub fn forecasting_outcome(forecast: Result<Vec<Fixed>, String>) -> (r: Result<
    Vec<Fixed>,
    AllocationError,
>)
    ensures
        match forecast {
            Ok(values) => r == Ok::<Vec<Fixed>, AllocationError>(values),
            Err(detail) => r == Err::<Vec<Fixed>, AllocationError>(
                AllocationError::ForecastingError(detail),
            ),
        },
{
    match forecast {
        Ok(values) => Ok(values),
        Err(detail) => Err(AllocationError::ForecastingError(detail)),
    }
}

/// The result of the clusterer as the engine's callers see it: the labels,
/// or a clustering error that carries the diagnostic.
pub fn clustering_outcome(clusters: Result<Vec<usize>, String>) -> (r: Result<
    Vec<usize>,
    AllocationError,
>)
    ensures
        match clusters {
            Ok(labels) => r == Ok::<Vec<usize>, AllocationError>(labels),
            Err(detail) => r == Err::<Vec<usize>, AllocationError>(
                AllocationError::ClusteringError(detail),
            ),
        },
{
    match clusters {
        Ok(labels) => Ok(labels),
        Err(detail) => Err(AllocationError::ClusteringError(detail)),
    }
}

/// The value expected on forecast day `day`, counted from one.
pub fn predicted_value(forecast: &Result<Vec<Fixed>, String>, average: Fixed, day: usize) -> (r:
    Fixed)
    requires
        day >= 1,
    ensures
        r == projected(forecast_values(*forecast), average, day as int),
{
    match forecast {
        Ok(values) => {
            if day <= values.len() {
                values[day - 1]
            } else {
                average.times(day)
            }
        },
        Err(_) => average.times(day),
    }
}

/// The regime label of day `day` of the history, counted from one, if
/// there is one.
pub fn regime_label(clusters: &Result<Vec<usize>, String>, days: usize, day: usize) -> (r: Option<
    usize,
>)
    requires
        day >= 1,
    ensures
        ({
            let labels = labels_or_neutral(cluster_labels(*clusters), days as nat);
            if day <= labels.len() {
                r == Some(labels[day - 1])
            } else {
                r is None
            }
        }),
{
    match clusters {
        Ok(labels) => {
            if day <= labels.len() {
                Some(labels[day - 1])
            } else {
                None
            }
        },
        Err(_) => {
            if day <= days {
                Some(0)
            } else {
                None
            }
        },
    }
}

/// The weight of forecast day `day`, counted from one, before
/// normalization.
pub fn weigh(
    day: usize,
    predicted_return: Fixed,
    predicted_cash_flow: Fixed,
    auxiliary: &AuxiliaryData,
    days: usize,
) -> (r: Fixed)
    requires
        day >= 1,
    ensures
        r == prediction(
            day as int,
            predicted_return,
            predicted_cash_flow,
            auxiliary@.sentiment_scores,
            auxiliary@.optimal_actions,
            labels_or_neutral(auxiliary@.clusters, days as nat),
        ),
{
    let base = predicted_return.mul(predicted_cash_flow);
    let label = regime_label(&auxiliary.clusters, days, day);
    if day <= auxiliary.sentiment_scores.len() && day <= auxiliary.optimal_actions.len() {
        match label {
            Some(cluster) => {
                let weighted = base.mul(auxiliary.sentiment_scores[day - 1]).mul(
                    auxiliary.optimal_actions[day - 1],
                );
                let w: i128 = weighted.raw as i128;
                let k: u64 = cluster as u64;
                proof {
                    assert(-0x8000_0000_0000_0000 * 0xffff_ffff_ffff_ffff <= (w as int) * (k as int)
                        <= 0x7fff_ffff_ffff_ffff * 0xffff_ffff_ffff_ffff && (w as int) * (k as int)
                        + (w as int) == (w as int) * (k + 1)) by (nonlinear_arith)
                        requires
                            -0x8000_0000_0000_0000 <= w <= 0x7fff_ffff_ffff_ffff,
                            0 <= k <= 0xffff_ffff_ffff_ffff,
                    ;
                }
                // `cluster + 1` may not fit a machine word: add the weight once more instead.
                clamp_wide(w * (k as i128) + w)
            },
            None => base,
        }
    } else {
        base
    }
}

/// Computes the allocation over `num_days` forecast days.
///
/// The four series are checked first, and the first check that fails
/// decides the error. For valid series the result has one weight per
/// forecast day. The weight of a day is the product of the expected return,
/// the expected cash flow, the two signals of the day and the regime label
/// of the day plus one, divided by the sum of these products over all
/// days. A forecast that failed or is too short is replaced, day by day, by
/// the mean of the history times the day; a clustering that failed by the
/// label zero for every day of the history. Where the products sum to zero
/// every weight is zero.
pub fn calculate_optimal_allocation(
    daily_returns: &[Sample],
    cash_flows: &[Sample],
    market_indices: &[Sample],
    fund_characteristics: &[Sample],
    num_days: usize,
    auxiliary: &AuxiliaryData,
) -> (result: Result<Vec<Share>, AllocationError>)
    ensures
        match outcome(
            daily_returns@,
            cash_flows@,
            market_indices@,
            fund_characteristics@,
            num_days as nat,
            auxiliary@,
        ) {
            Ok(weights) => result is Ok && result->Ok_0@ == weights,
            Err(error) => result == Err::<Vec<Share>, AllocationError>(error),
        },
{
    match validate_inputs(daily_returns, cash_flows, market_indices, fund_characteristics) {
        Err(error) => {
            return Err(error);
        },
        Ok(_) => {},
    }
    let return_history = to_history(daily_returns);
    let flow_history = to_history(cash_flows);
    let average_return = average(return_history.as_slice());
    let average_cash_flow = average(flow_history.as_slice());
    let days: usize = daily_returns.len();
    let mut weights: Vec<Fixed> = Vec::new();
    let mut i: usize = 0;
    while i < num_days
        invariant
            i <= num_days,
            weights@.len() == i,
            average_return == mean(history(daily_returns@)),
            average_cash_flow == mean(history(cash_flows@)),
            days == daily_returns@.len(),
            forall|j: int|
                0 <= j < i ==> weights@[j] == #[trigger] predictions(
                    daily_returns@,
                    cash_flows@,
                    num_days as nat,
                    auxiliary@,
                )[j],
        decreases num_days - i,
    {
        let day: usize = i + 1;
        let predicted_return = predicted_value(&auxiliary.forecasted_returns, average_return, day);
        let predicted_cash_flow = predicted_value(
            &auxiliary.forecasted_cash_flows,
            average_cash_flow,
            day,
        );
        weights.push(weigh(day, predicted_return, predicted_cash_flow, auxiliary, days));
        i += 1;
    }
    assert(weights@ =~= predictions(daily_returns@, cash_flows@, num_days as nat, auxiliary@));
    Ok(normalize(weights.as_slice()))
}

} // verus!
