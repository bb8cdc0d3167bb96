//! Configuration modes of a sandbox account.
use vstd::prelude::*;

verus! {

/// Whether the sandbox replays history (backtest) or runs against live time.
#[derive(Clone, Copy, Debug, PartialEq, Eq, Structural)]
pub enum SandboxMode {
    Backtest,
    Online,
}

/// The margin model of an account.
#[derive(Clone, Copy, Debug, PartialEq, Eq, Structural)]
pub enum MarginMode {
    SimpleMode,
    SingleCurrencyMargin,
    MultiCurrencyMargin,
    PortfolioMargin,
}

/// The commission tier of an account.
#[derive(Clone, Copy, Debug, PartialEq, Eq, Structural)]
pub enum CommissionLevel {
    Lv1,
    Lv2,
    Lv3,
    Lv4,
    Lv5,
}

} // verus!
