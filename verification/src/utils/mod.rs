//! Validation, feature extraction and the allocation engine.

pub mod amount;
pub mod ascii;
pub mod calculations;
pub mod currency;
pub mod date;
pub mod features;
pub mod laws;
pub mod normalization;
pub mod signals;
pub mod ticker;
pub mod validation;
