//! A bar-by-bar backtesting engine: a price series is replayed through a
//! trading strategy, and the resulting cash and position changes are
//! simulated to produce a trade ledger, an equity curve and summary
//! performance statistics.
//!
//! All monetary amounts, prices and rates are fixed-point integers: amounts
//! and prices are `i64` values in whatever unit the caller chooses, and every
//! fractional rate (slippage, commission, the per-trade allocation fraction)
//! is expressed in basis points, i.e. as a numerator over
//! [`config::BPS_SCALE`].

use vstd::prelude::*;

pub mod config;
pub mod graphing;
pub mod historical;
pub mod strategy;
pub mod testing;

verus! {

/// Largest price the engine accepts; keeping prices at or below this bound
/// keeps every slippage-adjusted price representable in an `i64`.
pub const MAX_PRICE: i64 = 0x3fff_ffff_ffff_ffff;

} // verus!
