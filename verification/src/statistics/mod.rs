//! Statistics of trading results.
pub mod error;
