//! Error kinds reported by the library.

use vstd::prelude::*;
use vstd::string::StringExecFns;

verus! {

/// Why an allocation could not be computed.
///
/// The first four kinds describe faults in the caller's data and are
/// found before any computation begins. The remaining kinds carry the
/// diagnostic of a collaborator that failed.
#[derive(Clone, Debug, PartialEq, Eq)]
pub enum AllocationError {
    /// The input series do not all have the same length.
    InputMismatch,
    /// An input series is empty.
    EmptyInput,
    /// The clustering routine failed.
    ClusteringError(String),
    /// An input value is a NaN or an infinity.
    InvalidData,
    /// An input value lies beyond its outlier limit.
    OutlierData,
    /// The forecasting routine failed.
    ForecastingError(String),
    /// The sentiment source failed.
    SentimentAnalysisError(String),
    /// The action source failed.
    ReinforcementLearningError(String),
}

impl AllocationError {
    /// The text that describes this error.
    pub open spec fn text(self) -> Seq<char> {
        match self {
            AllocationError::InputMismatch => "Input slices must have the same length"@,
            AllocationError::EmptyInput => "Input slices cannot be empty"@,
            AllocationError::ClusteringError(detail) => "Error during clustering: "@ + detail@,
            AllocationError::InvalidData => "Input data contains missing or invalid values"@,
            AllocationError::OutlierData => "Input data contains outliers"@,
            AllocationError::ForecastingError(detail) => "Error during time series forecasting: "@
                + detail@,
            AllocationError::SentimentAnalysisError(detail) => "Error during sentiment analysis: "@
                + detail@,
            AllocationError::ReinforcementLearningError(detail) =>
                "Error during reinforcement learning: "@ + detail@,
        }
    }

    /// Whether this error is one of the four faults of the caller's data.
    pub open spec fn fatal(self) -> bool {
        self is InputMismatch || self is EmptyInput || self is InvalidData || self is OutlierData
    }

    /// A description of this error for people.
    pub fn message(&self) -> (r: String)
        ensures
            r@ == self.text(),
    {
        match self {
            AllocationError::InputMismatch => String::from_str(
                "Input slices must have the same length",
            ),
            AllocationError::EmptyInput => String::from_str("Input slices cannot be empty"),
            AllocationError::ClusteringError(detail) => String::from_str(
                "Error during clustering: ",
            ).concat(detail.as_str()),
            AllocationError::InvalidData => String::from_str(
                "Input data contains missing or invalid values",
            ),
            AllocationError::OutlierData => String::from_str("Input data contains outliers"),
            AllocationError::ForecastingError(detail) => String::from_str(
                "Error during time series forecasting: ",
            ).concat(detail.as_str()),
            AllocationError::SentimentAnalysisError(detail) => String::from_str(
                "Error during sentiment analysis: ",
            ).concat(detail.as_str()),
            AllocationError::ReinforcementLearningError(detail) => String::from_str(
                "Error during reinforcement learning: ",
            ).concat(detail.as_str()),
        }
    }

    /// Whether this error is one of the four faults of the caller's data.
    pub fn is_fatal(&self) -> (r: bool)
        ensures
            r == self.fatal(),
    {
        match self {
            AllocationError::InputMismatch => true,
            AllocationError::EmptyInput => true,
            AllocationError::InvalidData => true,
            AllocationError::OutlierData => true,
            _ => false,
        }
    }
}

/// Why a banner could not be drawn.
#[derive(Clone, Copy, Debug, PartialEq, Eq, Structural)]
pub enum AsciiArtError {
    /// The built-in font could not be loaded.
    FontLoadError,
    /// The text could not be drawn.
    ConversionError,
}

impl AsciiArtError {
    /// The text that describes this error.
    pub open spec fn text(self) -> Seq<char> {
        match self {
            AsciiArtError::FontLoadError => "Failed to load FIGfont"@,
            AsciiArtError::ConversionError => "Failed to convert text to ASCII art"@,
        }
    }

    /// A description of this error for people.
    pub fn message(&self) -> (r: String)
        ensures
            r@ == self.text(),
    {
        match self {
            AsciiArtError::FontLoadError => String::from_str("Failed to load FIGfont"),
            AsciiArtError::ConversionError => String::from_str(
                "Failed to convert text to ASCII art",
            ),
        }
    }
}

} // verus!
