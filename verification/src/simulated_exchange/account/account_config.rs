//! Configuration modes of an account on the simulated exchange.
use vstd::prelude::*;

verus! {

/// The margin model of an account.
#[derive(Clone, Copy, Debug, PartialEq, Eq, Structural)]
pub enum MarginMode {
    SimpleMode,
    SingleCurrencyMargin,
    MultiCurrencyMargin,
    PortfolioMargin,
}

/// Whether an account holds long and short positions apart or nets them.
#[derive(Clone, Copy, Debug, PartialEq, Eq, Structural)]
pub enum PositionMode {
    LongShortMode,
    NetMode,
}

/// The commission tier of an account.
#[derive(Clone, Copy, Debug, PartialEq, Eq, Structural)]
pub enum CommissionLevel {
    Lv1,
    Lv2,
    Lv3,
    Lv4,
    Lv5,
}

} // verus!
