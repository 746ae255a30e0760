//! Requests and replies of the prediction service.

use vstd::prelude::*;
use crate::numeric::fixed::Fixed;
use crate::numeric::sample::Sample;

verus! {

/// A request for a prediction from a history of cash flows.
#[derive(Clone, Debug, PartialEq)]
pub struct CashFlowRequest {
    pub historical_data: Vec<Sample>,
}

/// The predictions and the allocation computed from them.
#[derive(Clone, Debug, PartialEq)]
pub struct CashFlowResponse {
    pub predictions: Vec<Sample>,
    pub optimal_allocation: Vec<Fixed>,
}

/// A failure reported to the client.
#[derive(Clone, Debug, PartialEq, Eq, Hash)]
pub struct ErrorResponse {
    pub error: String,
}

/// The price history of one ticker.
#[derive(Clone, Debug, PartialEq)]
pub struct HistoricalData {
    pub ticker: String,
    pub data: Vec<Sample>,
}

} // verus!
