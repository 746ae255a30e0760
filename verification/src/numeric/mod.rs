//! Number representations used throughout the library.

pub mod fixed;
pub mod sample;
