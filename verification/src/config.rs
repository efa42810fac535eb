//! Run configuration for one simulation: starting funds, cost model and
//! strategy parameters, all as fixed-point integers.

use vstd::prelude::*;

verus! {

/// Denominator of every fractional rate in the engine: a rate of `r` basis
/// points stands for the fraction `r / 10000`.
pub const BPS_SCALE: i64 = 10000;

/// How much the optional textual trade log records.
#[derive(Debug, Clone, Copy, PartialEq, Eq, Structural)]
pub enum LogLevel {
    /// Every entry, exit and warning.
    All,
    /// Warnings only (double entry, nothing to exit, insufficient funds).
    Info,
    /// Nothing.
    Off,
}

/// Configuration of one simulation run.
///
/// `base_funds` is the starting cash. `transaction_fee` and `slippage` are
/// rates in basis points (see [`BPS_SCALE`]); the commission charged at entry
/// and at exit is `allocated * transaction_fee / BPS_SCALE`, and slippage
/// moves every fill price against the trader by `price * slippage /
/// BPS_SCALE`. `trade_fraction` is the fraction of current cash committed to
/// each trade, also in basis points. `sma_window` is the strategy's warm-up
/// length in bars.
#[derive(Debug, Clone, Copy, PartialEq, Eq, Structural)]
pub struct Config {
    pub base_funds: i64,
    pub transaction_fee: i64,
    pub slippage: i64,
    pub trade_fraction: i64,
    pub sma_window: usize,
    pub log_level: LogLevel,
}

impl Config {
    /// A configuration the engine accepts: positive starting funds, a
    /// commission of at most 100%, slippage strictly below 100% (so a
    /// slipped price never reaches zero), an allocation fraction in
    /// (0, 1], and a positive warm-up window.
    pub open spec fn wf(self) -> bool {
        &&& self.base_funds > 0
        &&& 0 <= self.transaction_fee <= BPS_SCALE
        &&& 0 <= self.slippage < BPS_SCALE
        &&& 0 < self.trade_fraction <= BPS_SCALE
        &&& self.sma_window >= 1
    }
}

} // verus!
