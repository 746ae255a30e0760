//! Day-by-day capital allocation with machine-checked contracts.
//!
//! The engine in [`utils::calculations`] takes four aligned series of
//! observations, a horizon, and what the outside collaborators produced
//! (forecasts, signals, regime labels), and returns one weight per forecast
//! day. [`utils::validation`] rejects faulty series before anything is
//! computed, [`utils::features`] builds the standardized feature matrix
//! that the clusterer works on, [`utils::normalization`] turns weights into
//! shares that sum to one exactly, and [`utils::laws`] proves what holds of
//! every result.
//!
//! Observations cross the boundary of the library as binary64 bit patterns
//! ([`numeric::sample::Sample`]), so that a NaN or an infinity can be told
//! from a number and limits are compared exactly. The library computes in
//! whole numbers: products of expected values and signals in fixed-point
//! arithmetic with 32 fractional bits ([`numeric::fixed::Fixed`]), which
//! rounds toward zero and saturates at the ends of its range; shares of a
//! total in 128 bits ([`numeric::fixed::Share`]), which hold every quotient
//! of two fixed-point numbers; and the statistics of a feature column in
//! units of the column's own size, which hold every finite double. Every
//! result is an exact function of the inputs.

pub mod config;
pub mod errors;
pub mod models;
pub mod numeric;
pub mod utils;
