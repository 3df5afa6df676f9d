//! A portfolio rebalancing library: a ledger of asset classes with current
//! dollar amounts and target percentage weights, and the computation of the
//! buy/sell adjustments that bring the portfolio to its targets. All money is
//! exact fixed-point decimal, never binary floating point.

pub mod fixed;
pub mod commands;
pub mod portfolio;
