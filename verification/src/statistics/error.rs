//! Errors raised while building statistics.
use vstd::prelude::*;

verus! {

/// Why a statistics structure could not be built.
#[derive(Clone, Copy, Debug, PartialEq)]
pub enum StatisticsError {
    /// A required attribute was not given.
    BuilderIncomplete(&'static str),
    /// No metric was given.
    BuilderNoMetricsProvided,
}

} // verus!
