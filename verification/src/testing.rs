//! The trade-lifecycle state machine and the performance-accounting engine:
//! a portfolio with at most one open position, its closed-trade ledger and
//! equity curve, and the operations that drive it.
//!
//! Every operation is specified against a ghost model ([`PortfolioModel`])
//! whose transition functions ([`enter_m`], [`exit_m`], [`update_m`]) state
//! the exact fixed-point arithmetic the engine performs.

use vstd::prelude::*;

use crate::config::{BPS_SCALE, Config, LogLevel};
use crate::historical::Kline;
use crate::strategy::{on_tick_m, Signal, SimpleStrategy, StrategyModel};
use crate::MAX_PRICE;

verus! {

/// Side of a position. `Flat` means no position at all; an actual trade is
/// always `Long` or `Short`.
#[derive(Debug, Clone, Copy, PartialEq, Eq, Structural)]
pub enum Direction {
    Long,
    Short,
    Flat,
}

/// One trade of the ledger. The exit fields stay `None` while the trade is
/// open and are all set at the moment it closes; a closed trade is never
/// mutated again.
///
/// `entry_price` and `exit_price` are the effective, slippage-adjusted fill
/// prices. `allocated` is the capital committed at entry and `commission`
/// the accumulated commission (entry, plus exit once closed). `profit` is
/// the net profit after commission.
#[derive(Debug, Clone, Copy, PartialEq, Eq)]
pub struct Trade {
    pub entry_date: i64,
    pub exit_date: Option<i64>,
    pub entry_price: i64,
    pub exit_price: Option<i64>,
    pub direction: Direction,
    pub allocated: i64,
    pub profit: Option<i64>,
    pub commission: i64,
}

/// One record of the optional textual trade log, as plain data; rendering
/// the record to text is left to the caller.
#[derive(Debug, Clone, Copy, PartialEq, Eq)]
pub enum LogEvent {
    /// An entry was attempted while a trade was already open.
    TradeAlreadyOpen { date: i64 },
    /// An entry was attempted with no allocatable cash.
    InsufficientFunds { date: i64 },
    /// A trade was opened.
    TradeEntered {
        date: i64,
        direction: Direction,
        entry_price: i64,
        commission: i64,
        allocated: i64,
        cash: i64,
    },
    /// An exit was attempted with no open trade.
    NoTradeToExit { date: i64 },
    /// The open trade was closed.
    TradeExited { date: i64, exit_price: i64, profit: i64, commission: i64, cash: i64 },
}

/// What a [`Portfolio::enter_trade`] call did.
#[derive(Debug, Clone, Copy, PartialEq, Eq, Structural)]
pub enum EnterOutcome {
    /// A new trade was opened.
    Entered,
    /// A trade was already open; nothing changed.
    AlreadyOpen,
    /// The allocation would not have been positive; nothing changed.
    InsufficientFunds,
}

/// What a [`Portfolio::exit_trade`] call did.
#[derive(Debug, Clone, Copy, PartialEq, Eq, Structural)]
pub enum ExitOutcome {
    /// The open trade was closed and appended to the ledger.
    Closed,
    /// There was no open trade; nothing changed.
    NoPosition,
    /// The trade's settlement does not fit the fixed-point range; nothing
    /// changed.
    OutOfRange,
}

/// Ghost model of a [`Portfolio`]: the same data with mathematical
/// sequences in place of vectors.
#[verifier::ext_equal]
pub ghost struct PortfolioModel {
    pub cash: i64,
    pub open_trade: Option<Trade>,
    pub closed_trades: Seq<Trade>,
    pub equity_curve: Seq<(i64, i64)>,
    pub log: Seq<LogEvent>,
    pub commission_rate: i64,
    pub slippage: i64,
    pub trade_fraction: i64,
}

/// Does the mathematical integer `x` fit in an `i64`?
pub open spec fn fits_i64(x: int) -> bool {
    i64::MIN <= x <= i64::MAX
}

/// `amount` scaled by a rate of `rate` basis points, rounded down.
pub open spec fn bps_of(amount: int, rate: int) -> int {
    amount * rate / (BPS_SCALE as int)
}

/// The effective price of an entry fill: slippage moves the price against
/// the trader, up for a long entry and down for a short entry.
pub open spec fn slipped_entry(price: int, slippage: int, direction: Direction) -> int {
    if direction == Direction::Long {
        price * (BPS_SCALE + slippage) / (BPS_SCALE as int)
    } else {
        price * (BPS_SCALE - slippage) / (BPS_SCALE as int)
    }
}

/// The effective price of an exit fill: slippage again moves the price
/// against the trader, down when closing a long and up when closing a short.
pub open spec fn slipped_exit(price: int, slippage: int, direction: Direction) -> int {
    if direction == Direction::Long {
        price * (BPS_SCALE - slippage) / (BPS_SCALE as int)
    } else {
        price * (BPS_SCALE + slippage) / (BPS_SCALE as int)
    }
}

/// `alloc * num / den`, rounded toward zero, for `alloc >= 0` and `den > 0`.
/// The engine's profit formula uses this with `num` the (possibly negative)
/// effective price difference and `den` the effective entry price.
pub open spec fn ratio_trunc(alloc: int, num: int, den: int) -> int {
    if num >= 0 {
        alloc * num / den
    } else {
        -(alloc * (-num) / den)
    }
}

/// A trade that is still open: no exit field set, committed capital and an
/// effective entry price of at least one unit, and the entry commission
/// charged so far, at most the committed capital.
pub open spec fn trade_open_wf(t: Trade) -> bool {
    &&& t.direction != Direction::Flat
    &&& t.allocated >= 1
    &&& t.entry_price >= 1
    &&& 0 <= t.commission <= t.allocated
    &&& t.exit_date is None
    &&& t.exit_price is None
    &&& t.profit is None
}

/// A closed trade: every exit field set and a non-negative total commission.
pub open spec fn trade_closed_wf(t: Trade) -> bool {
    &&& t.direction != Direction::Flat
    &&& t.allocated >= 1
    &&& t.entry_price >= 1
    &&& t.commission >= 0
    &&& t.exit_date is Some
    &&& t.exit_price is Some
    &&& t.profit is Some
}

impl PortfolioModel {
    /// Well-formedness: the rates are in range, the open trade (if any) is
    /// open and every trade of the ledger is closed.
    pub open spec fn wf(self) -> bool {
        &&& 0 <= self.commission_rate <= BPS_SCALE
        &&& 0 <= self.slippage < BPS_SCALE
        &&& 0 < self.trade_fraction <= BPS_SCALE
        &&& (match self.open_trade {
            Some(t) => trade_open_wf(t),
            None => true,
        })
        &&& (forall|i: int|
            0 <= i < self.closed_trades.len() ==> trade_closed_wf(#[trigger] self.closed_trades[i]))
    }
}

/// Appends a warning event to the log, unless logging is off.
pub open spec fn log_warn(p: PortfolioModel, lvl: LogLevel, e: LogEvent) -> PortfolioModel {
    if lvl == LogLevel::Off {
        p
    } else {
        PortfolioModel { log: p.log.push(e), ..p }
    }
}

/// Appends a detail event to the log, only at the most verbose level.
pub open spec fn log_detail(p: PortfolioModel, lvl: LogLevel, e: LogEvent) -> PortfolioModel {
    if lvl == LogLevel::All {
        PortfolioModel { log: p.log.push(e), ..p }
    } else {
        p
    }
}

/// The exact effect of [`Portfolio::enter_trade`]. A second entry and an
/// entry with no allocatable cash are no-ops that at most log a warning;
/// otherwise `cash * trade_fraction / BPS_SCALE` is committed, the entry
/// price is slipped against the trader, and the entry commission is charged
/// into the new open trade.
pub open spec fn enter_m(
    p: PortfolioModel,
    date: i64,
    price: i64,
    direction: Direction,
    lvl: LogLevel,
) -> (PortfolioModel, EnterOutcome) {
    if p.open_trade is Some {
        (log_warn(p, lvl, LogEvent::TradeAlreadyOpen { date }), EnterOutcome::AlreadyOpen)
    } else {
        let alloc = bps_of(p.cash as int, p.trade_fraction as int);
        if alloc <= 0 {
            (log_warn(p, lvl, LogEvent::InsufficientFunds { date }), EnterOutcome::InsufficientFunds)
        } else {
            let entry_price = slipped_entry(price as int, p.slippage as int, direction);
            let commission = bps_of(alloc, p.commission_rate as int);
            let new_cash = p.cash - alloc;
            let trade = (Trade {
                entry_date: date,
                exit_date: None,
                entry_price: entry_price as i64,
                exit_price: None,
                direction,
                allocated: alloc as i64,
                profit: None,
                commission: commission as i64,
            });
            let p2 = PortfolioModel {
                cash: new_cash as i64,
                open_trade: Some(trade),
                ..p
            };
            (
                log_detail(
                    p2,
                    lvl,
                    LogEvent::TradeEntered {
                        date,
                        direction,
                        entry_price: entry_price as i64,
                        commission: commission as i64,
                        allocated: alloc as i64,
                        cash: new_cash as i64,
                    },
                ),
                EnterOutcome::Entered,
            )
        }
    }
}

/// The exact effect of [`Portfolio::exit_trade`]. With no open trade the
/// call at most logs a warning. Otherwise the exit price is slipped against
/// the trader, the exit commission is added to the trade's accumulated
/// commission, the net profit is the truncated ratio profit minus the total
/// commission, and `allocated + profit` flows back into cash; if any
/// settlement value leaves the `i64` range, nothing changes and the outcome
/// says so.
pub open spec fn exit_m(p: PortfolioModel, date: i64, price: i64, lvl: LogLevel) -> (
    PortfolioModel,
    ExitOutcome,
) {
    match p.open_trade {
        None => (log_warn(p, lvl, LogEvent::NoTradeToExit { date }), ExitOutcome::NoPosition),
        Some(t) => {
            let exit_price = slipped_exit(price as int, p.slippage as int, t.direction);
            let exit_comm = bps_of(t.allocated as int, p.commission_rate as int);
            let total_comm = t.commission + exit_comm;
            let raw = if t.direction == Direction::Long {
                ratio_trunc(t.allocated as int, exit_price - t.entry_price, t.entry_price as int)
            } else {
                ratio_trunc(t.allocated as int, t.entry_price - exit_price, t.entry_price as int)
            };
            let net = raw - total_comm;
            let new_cash = p.cash + t.allocated + net;
            if !(fits_i64(total_comm) && fits_i64(net) && fits_i64(new_cash)) {
                (p, ExitOutcome::OutOfRange)
            } else {
                let t2 = (Trade {
                    exit_date: Some(date),
                    exit_price: Some(exit_price as i64),
                    profit: Some(net as i64),
                    commission: total_comm as i64,
                    ..t
                });
                let p2 = PortfolioModel {
                    cash: new_cash as i64,
                    open_trade: None,
                    closed_trades: p.closed_trades.push(t2),
                    ..p
                };
                (
                    log_detail(
                        p2,
                        lvl,
                        LogEvent::TradeExited {
                            date,
                            exit_price: exit_price as i64,
                            profit: net as i64,
                            commission: total_comm as i64,
                            cash: new_cash as i64,
                        },
                    ),
                    ExitOutcome::Closed,
                )
            }
        },
    }
}

/// The mark-to-market value of an open trade at the raw (non-slipped)
/// current price: the committed capital scaled by the price ratio, in the
/// trade's favour when the price moved its way. Slippage and commission are
/// deliberately not applied here; only realized exits pay them.
pub open spec fn trade_value(t: Trade, price: int) -> int {
    if t.direction == Direction::Long {
        t.allocated * price / (t.entry_price as int)
    } else {
        t.allocated * (t.entry_price as int) / price
    }
}

/// Total equity at the raw current price: cash, plus the mark-to-market
/// value of the open trade if there is one.
pub open spec fn equity_of(p: PortfolioModel, price: int) -> int {
    match p.open_trade {
        None => p.cash as int,
        Some(t) => p.cash + trade_value(t, price),
    }
}

/// [`equity_of`], clipped to what an `i64` sample can record: `None` when
/// the value leaves the range.
pub open spec fn equity_opt(p: PortfolioModel, price: int) -> Option<i64> {
    let e = equity_of(p, price);
    if fits_i64(e) {
        Some(e as i64)
    } else {
        None
    }
}

/// The exact effect of [`Portfolio::update`]: one equity sample is appended,
/// unless the equity leaves the `i64` range, in which case nothing changes.
pub open spec fn update_m(p: PortfolioModel, date: i64, price: i64) -> (PortfolioModel, bool) {
    match equity_opt(p, price as int) {
        Some(e) => (PortfolioModel { equity_curve: p.equity_curve.push((date, e)), ..p }, true),
        None => (p, false),
    }
}

/// The portfolio: free cash, at most one open trade, the append-only ledger
/// of closed trades, the equity curve, the run's cost parameters (in basis
/// points) and the accumulated log records.
pub struct Portfolio {
    pub cash: i64,
    pub open_trade: Option<Trade>,
    pub closed_trades: Vec<Trade>,
    pub equity_curve: Vec<(i64, i64)>,
    pub commission_rate: i64,
    pub slippage: i64,
    pub trade_fraction: i64,
    pub log: Vec<LogEvent>,
}

impl View for Portfolio {
    type V = PortfolioModel;

    open spec fn view(&self) -> PortfolioModel {
        PortfolioModel {
            cash: self.cash,
            open_trade: self.open_trade,
            closed_trades: self.closed_trades@,
            equity_curve: self.equity_curve@,
            log: self.log@,
            commission_rate: self.commission_rate,
            slippage: self.slippage,
            trade_fraction: self.trade_fraction,
        }
    }
}

impl Portfolio {
    /// A fresh portfolio holding `initial_equity` in cash, no trades and an
    /// empty equity curve.
    pub fn new(
        initial_equity: i64,
        commission_rate: i64,
        slippage: i64,
        trade_fraction: i64,
    ) -> (r: Portfolio)
        requires
            0 <= commission_rate <= BPS_SCALE,
            0 <= slippage < BPS_SCALE,
            0 < trade_fraction <= BPS_SCALE,
        ensures
            r@ == (PortfolioModel {
                cash: initial_equity,
                open_trade: None,
                closed_trades: Seq::<Trade>::empty(),
                equity_curve: Seq::<(i64, i64)>::empty(),
                log: Seq::<LogEvent>::empty(),
                commission_rate,
                slippage,
                trade_fraction,
            }),
            r@.wf(),
    {
        let r = Portfolio {
            cash: initial_equity,
            open_trade: None,
            closed_trades: Vec::new(),
            equity_curve: Vec::new(),
            commission_rate,
            slippage,
            trade_fraction,
            log: Vec::new(),
        };
        proof {
            assert(r@ =~= (PortfolioModel {
                cash: initial_equity,
                open_trade: None,
                closed_trades: Seq::<Trade>::empty(),
                equity_curve: Seq::<(i64, i64)>::empty(),
                log: Seq::<LogEvent>::empty(),
                commission_rate,
                slippage,
                trade_fraction,
            }));
        }
        r
    }

    /// Opens a trade, unless one is open already or the allocation would not
    /// be positive; see [`enter_m`] for the exact effect.
    pub fn enter_trade(
        &mut self,
        date: i64,
        price: i64,
        direction: Direction,
        log_level: &LogLevel,
    ) -> (r: EnterOutcome)
        requires
            old(self)@.wf(),
            1 <= price <= MAX_PRICE,
            direction != Direction::Flat,
            slipped_entry(price as int, old(self).slippage as int, direction) >= 1,
        ensures
            final(self)@ == enter_m(old(self)@, date, price, direction, *log_level).0,
            r == enter_m(old(self)@, date, price, direction, *log_level).1,
            final(self)@.wf(),
    {
        let ghost m = enter_m(old(self)@, date, price, direction, *log_level);
        if self.open_trade.is_some() {
            match log_level {
                LogLevel::Off => {},
                _ => {
                    self.log.push(LogEvent::TradeAlreadyOpen { date });
                },
            }
            proof {
                assert(self@ =~= m.0);
            }
            return EnterOutcome::AlreadyOpen;
        }
        if self.cash <= 0 {
            proof {
                lemma_bps_nonpos(self.cash as int, self.trade_fraction as int);
            }
            match log_level {
                LogLevel::Off => {},
                _ => {
                    self.log.push(LogEvent::InsufficientFunds { date });
                },
            }
            proof {
                assert(self@ =~= m.0);
            }
            return EnterOutcome::InsufficientFunds;
        }
        let cash_u = self.cash as u128;
        let frac_u = self.trade_fraction as u128;
        let bps_u = BPS_SCALE as u128;
        proof {
            lemma_mul_bound(cash_u as int, i64::MAX as int, frac_u as int, BPS_SCALE as int);
            lemma_scaled_le(cash_u as int, frac_u as int, BPS_SCALE as int);
        }
        let alloc_u = cash_u * frac_u / bps_u;
        if alloc_u == 0 {
            match log_level {
                LogLevel::Off => {},
                _ => {
                    self.log.push(LogEvent::InsufficientFunds { date });
                },
            }
            proof {
                assert(self@ =~= m.0);
            }
            return EnterOutcome::InsufficientFunds;
        }
        let allocated = alloc_u as i64;
        let price_u = price as u128;
        let slip_factor = if matches!(direction, Direction::Long) {
            (BPS_SCALE + self.slippage) as u128
        } else {
            (BPS_SCALE - self.slippage) as u128
        };
        proof {
            lemma_mul_bound(price_u as int, MAX_PRICE as int, slip_factor as int, 2 * BPS_SCALE);
            lemma_scaled_le(price_u as int, slip_factor as int, 2 * BPS_SCALE);
        }
        let entry_price_u = price_u * slip_factor / bps_u;
        proof {
            lemma_slip_div_halves(price_u as int, slip_factor as int);
        }
        let entry_price = entry_price_u as i64;
        let fee_u = self.commission_rate as u128;
        proof {
            lemma_mul_bound(alloc_u as int, i64::MAX as int, fee_u as int, BPS_SCALE as int);
            lemma_scaled_le(alloc_u as int, fee_u as int, BPS_SCALE as int);
        }
        let commission_u = alloc_u * fee_u / bps_u;
        let commission = commission_u as i64;
        self.cash = self.cash - allocated;
        let trade = Trade {
            entry_date: date,
            exit_date: None,
            entry_price,
            exit_price: None,
            direction,
            allocated,
            profit: None,
            commission,
        };
        match log_level {
            LogLevel::All => {
                self.log.push(LogEvent::TradeEntered {
                    date,
                    direction,
                    entry_price,
                    commission,
                    allocated,
                    cash: self.cash,
                });
            },
            _ => {},
        }
        self.open_trade = Some(trade);
        proof {
            assert(self@ =~= m.0);
        }
        EnterOutcome::Entered
    }

    /// Closes the open trade at `price`, if there is one; see [`exit_m`] for
    /// the exact effect. Calling it again without an intervening entry finds
    /// no open trade and changes nothing.
    pub fn exit_trade(&mut self, date: i64, price: i64, log_level: &LogLevel) -> (r: ExitOutcome)
        requires
            old(self)@.wf(),
            1 <= price <= MAX_PRICE,
        ensures
            final(self)@ == exit_m(old(self)@, date, price, *log_level).0,
            r == exit_m(old(self)@, date, price, *log_level).1,
            final(self)@.wf(),
    {
        let ghost m = exit_m(old(self)@, date, price, *log_level);
        let t = match self.open_trade {
            Some(t) => t,
            None => {
                match log_level {
                    LogLevel::Off => {},
                    _ => {
                        self.log.push(LogEvent::NoTradeToExit { date });
                    },
                }
                proof {
                    assert(self@ =~= m.0);
                }
                return ExitOutcome::NoPosition;
            },
        };
        let bps_u = BPS_SCALE as u128;
        let price_u = price as u128;
        let slip_factor = if matches!(t.direction, Direction::Long) {
            (BPS_SCALE - self.slippage) as u128
        } else {
            (BPS_SCALE + self.slippage) as u128
        };
        proof {
            lemma_mul_bound(price_u as int, MAX_PRICE as int, slip_factor as int, 2 * BPS_SCALE);
            lemma_slip_div_halves(price_u as int, slip_factor as int);
        }
        let exit_price_u = price_u * slip_factor / bps_u;
        let exit_price = exit_price_u as i64;
        let alloc_u = t.allocated as u128;
        let fee_u = self.commission_rate as u128;
        proof {
            lemma_mul_bound(alloc_u as int, i64::MAX as int, fee_u as int, BPS_SCALE as int);
            lemma_scaled_le(alloc_u as int, fee_u as int, BPS_SCALE as int);
        }
        let exit_comm_u = alloc_u * fee_u / bps_u;
        let total_comm: i128 = t.commission as i128 + exit_comm_u as i128;
        let entry_u = t.entry_price as u128;
        let diff: i128 = if matches!(t.direction, Direction::Long) {
            exit_price as i128 - t.entry_price as i128
        } else {
            t.entry_price as i128 - exit_price as i128
        };
        let raw: i128 = if diff >= 0 {
            proof {
                lemma_mul_bound(alloc_u as int, i64::MAX as int, diff as int, i64::MAX as int);
                lemma_div_le_self(alloc_u * (diff as int), entry_u as int);
            }
            (alloc_u * (diff as u128) / entry_u) as i128
        } else {
            proof {
                lemma_mul_bound(alloc_u as int, i64::MAX as int, -(diff as int), i64::MAX as int);
                lemma_div_le_self(alloc_u * (-(diff as int)), entry_u as int);
            }
            -((alloc_u * ((-diff) as u128) / entry_u) as i128)
        };
        let net: i128 = raw - total_comm;
        let new_cash: i128 = self.cash as i128 + t.allocated as i128 + net;
        if !(i64::MIN as i128 <= net && net <= i64::MAX as i128 && i64::MIN as i128 <= new_cash
            && new_cash <= i64::MAX as i128 && total_comm <= i64::MAX as i128) {
            proof {
                assert(self@ =~= m.0);
            }
            return ExitOutcome::OutOfRange;
        }
        let t2 = Trade {
            exit_date: Some(date),
            exit_price: Some(exit_price),
            profit: Some(net as i64),
            commission: total_comm as i64,
            ..t
        };
        self.cash = new_cash as i64;
        self.open_trade = None;
        self.closed_trades.push(t2);
        match log_level {
            LogLevel::All => {
                self.log.push(LogEvent::TradeExited {
                    date,
                    exit_price,
                    profit: t2.profit.unwrap(),
                    commission: t2.commission,
                    cash: self.cash,
                });
            },
            _ => {},
        }
        proof {
            assert(self@ =~= m.0);
        }
        ExitOutcome::Closed
    }

    /// Total equity at the raw current price: cash plus the mark-to-market
    /// value of the open trade; `None` when that value cannot be recorded in
    /// an `i64` sample.
    pub fn total_equity(&self, current_price: i64) -> (r: Option<i64>)
        requires
            self@.wf(),
            current_price >= 1,
        ensures
            r == equity_opt(self@, current_price as int),
    {
        let t = match &self.open_trade {
            None => {
                return Some(self.cash);
            },
            Some(t) => t,
        };
        let val_u: u128 = if matches!(t.direction, Direction::Long) {
            proof {
                lemma_mul_bound(
                    t.allocated as int,
                    i64::MAX as int,
                    current_price as int,
                    i64::MAX as int,
                );
                lemma_div_le_self(t.allocated as int * current_price as int, t.entry_price as int);
            }
            (t.allocated as u128) * (current_price as u128) / (t.entry_price as u128)
        } else {
            proof {
                lemma_mul_bound(
                    t.allocated as int,
                    i64::MAX as int,
                    t.entry_price as int,
                    i64::MAX as int,
                );
                lemma_div_le_self(t.allocated as int * t.entry_price as int, current_price as int);
            }
            (t.allocated as u128) * (t.entry_price as u128) / (current_price as u128)
        };
        let eq: i128 = self.cash as i128 + val_u as i128;
        if i64::MIN as i128 <= eq && eq <= i64::MAX as i128 {
            Some(eq as i64)
        } else {
            None
        }
    }

    /// Appends one equity sample for `date` at the raw current price; see
    /// [`update_m`]. Returns whether a sample was recorded.
    pub fn update(&mut self, date: i64, price: i64) -> (r: bool)
        requires
            old(self)@.wf(),
            price >= 1,
        ensures
            final(self)@ == update_m(old(self)@, date, price).0,
            r == update_m(old(self)@, date, price).1,
            final(self)@.wf(),
    {
        let ghost m = update_m(old(self)@, date, price);
        match self.total_equity(price) {
            Some(e) => {
                self.equity_curve.push((date, e));
                proof {
                    assert(self@ =~= m.0);
                }
                true
            },
            None => {
                proof {
                    assert(self@ =~= m.0);
                }
                false
            },
        }
    }
}

/// Sum of the net profits of a ledger of closed trades.
pub open spec fn total_profit_of(s: Seq<Trade>) -> int
    decreases s.len(),
{
    if s.len() == 0 {
        0
    } else {
        total_profit_of(s.drop_last()) + s.last().profit->0
    }
}

/// Sum of the accumulated commissions of a ledger.
pub open spec fn total_commission_of(s: Seq<Trade>) -> int
    decreases s.len(),
{
    if s.len() == 0 {
        0
    } else {
        total_commission_of(s.drop_last()) + s.last().commission
    }
}

/// Number of winning trades: strictly positive net profit.
pub open spec fn wins_of(s: Seq<Trade>) -> int
    decreases s.len(),
{
    if s.len() == 0 {
        0
    } else {
        wins_of(s.drop_last()) + if s.last().profit->0 > 0 {
            1int
        } else {
            0int
        }
    }
}

/// Number of losing trades: zero or negative net profit.
pub open spec fn losses_of(s: Seq<Trade>) -> int
    decreases s.len(),
{
    if s.len() == 0 {
        0
    } else {
        losses_of(s.drop_last()) + if s.last().profit->0 > 0 {
            0int
        } else {
            1int
        }
    }
}

/// Running state of the trade-sequence drawdown scan: the sum and length of
/// the current run of losing trades, and the most negative completed run
/// seen so far with its length.
#[verifier::ext_equal]
pub ghost struct DdState {
    pub cur: int,
    pub cur_dur: int,
    pub max: int,
    pub max_dur: int,
}

/// One step of the drawdown scan: a losing trade deepens the current run; a
/// non-losing trade completes the run, keeping it if it is the most negative
/// so far, and resets the counters.
pub open spec fn dd_step(st: DdState, profit: int) -> DdState {
    if profit < 0 {
        DdState { cur: st.cur + profit, cur_dur: st.cur_dur + 1, ..st }
    } else if st.cur < st.max {
        DdState { cur: 0, cur_dur: 0, max: st.cur, max_dur: st.cur_dur }
    } else {
        DdState { cur: 0, cur_dur: 0, ..st }
    }
}

/// The drawdown scan over a whole ledger, in order.
pub open spec fn dd_fold(s: Seq<Trade>) -> DdState
    decreases s.len(),
{
    if s.len() == 0 {
        DdState { cur: 0, cur_dur: 0, max: 0, max_dur: 0 }
    } else {
        dd_step(dd_fold(s.drop_last()), s.last().profit->0 as int)
    }
}

/// The final (drawdown, duration) pair: a run of losses still open at the
/// end of the ledger counts as completed.
pub open spec fn max_drawdown_of(s: Seq<Trade>) -> (int, int) {
    let st = dd_fold(s);
    if st.cur < st.max {
        (st.cur, st.cur_dur)
    } else {
        (st.max, st.max_dur)
    }
}

/// `a / b` rounded toward zero, for `b > 0`.
pub open spec fn trunc_div(a: int, b: int) -> int {
    if a >= 0 {
        a / b
    } else {
        -((-a) / b)
    }
}

/// Do all aggregate figures of the ledger fit the fixed-point range?
pub open spec fn metrics_fits(s: Seq<Trade>) -> bool {
    &&& fits_i64(total_profit_of(s))
    &&& fits_i64(total_commission_of(s))
    &&& fits_i64(max_drawdown_of(s).0)
}

/// The summary statistics of a finished ledger, exactly as
/// [`Metrics::compute`] derives them. The win rate is in basis points. Both
/// averages divide the aggregate net profit (not a separated win or loss
/// sum) by the respective count; rates and averages default to zero when
/// their denominator is zero.
pub open spec fn metrics_m(s: Seq<Trade>) -> Metrics {
    Metrics {
        total_trades: s.len() as usize,
        total_profit: total_profit_of(s) as i64,
        total_commission: total_commission_of(s) as i64,
        win_rate: if s.len() == 0 {
            0
        } else {
            (wins_of(s) * (BPS_SCALE as int) / (s.len() as int)) as i64
        },
        avg_profit: if wins_of(s) > 0 {
            trunc_div(total_profit_of(s), wins_of(s)) as i64
        } else {
            0
        },
        avg_loss: if losses_of(s) > 0 {
            trunc_div(total_profit_of(s), losses_of(s)) as i64
        } else {
            0
        },
        max_drawdown: max_drawdown_of(s).0 as i64,
        max_drawdown_duration: max_drawdown_of(s).1 as usize,
    }
}

/// Summary statistics of one finished ledger. `win_rate` is in basis points
/// (see [`BPS_SCALE`]); `max_drawdown` is the most negative sum over a
/// consecutive run of losing trades (a non-positive number), and its
/// duration counts trades, not calendar time.
#[derive(Debug, Clone, Copy, PartialEq, Eq, Structural)]
pub struct Metrics {
    pub total_trades: usize,
    pub total_profit: i64,
    pub total_commission: i64,
    pub win_rate: i64,
    pub avg_profit: i64,
    pub avg_loss: i64,
    pub max_drawdown: i64,
    pub max_drawdown_duration: usize,
}

impl Metrics {
    /// The all-zero statistics of an empty ledger.
    pub fn new() -> (r: Metrics)
        ensures
            r == metrics_m(Seq::<Trade>::empty()),
    {
        let r = Metrics {
            total_trades: 0,
            total_profit: 0,
            total_commission: 0,
            win_rate: 0,
            avg_profit: 0,
            avg_loss: 0,
            max_drawdown: 0,
            max_drawdown_duration: 0,
        };
        proof {
            vstd::arithmetic::div_mod::lemma_div_basics_1(1);
        }
        r
    }

    /// Computes the statistics of a finished ledger in one pass; see
    /// [`metrics_m`]. Returns `false`, leaving `self` unchanged, when an
    /// aggregate figure leaves the fixed-point range.
    pub fn compute(&mut self, trade_list: &Vec<Trade>) -> (r: bool)
        requires
            forall|i: int|
                0 <= i < trade_list@.len() ==> (#[trigger] trade_list@[i]).profit is Some,
            trade_list@.len() <= i64::MAX,
        ensures
            r == metrics_fits(trade_list@),
            r ==> *final(self) == metrics_m(trade_list@),
            !r ==> *final(self) == *old(self),
    {
        let ghost s = trade_list@;
        let n = trade_list.len();
        let mut tp: i128 = 0;
        let mut tc: i128 = 0;
        let mut wins: usize = 0;
        let mut losses: usize = 0;
        let mut cur: i128 = 0;
        let mut cur_dur: usize = 0;
        let mut maxd: i128 = 0;
        let mut max_dur: usize = 0;
        let mut i: usize = 0;
        proof {
            assert(s.take(0) =~= Seq::<Trade>::empty());
        }
        while i < n
            invariant
                0 <= i <= n,
                n == s.len() <= i64::MAX,
                forall|j: int| 0 <= j < s.len() ==> (#[trigger] s[j]).profit is Some,
                trade_list@ == s,
                tp == total_profit_of(s.take(i as int)),
                tc == total_commission_of(s.take(i as int)),
                wins == wins_of(s.take(i as int)),
                losses == losses_of(s.take(i as int)),
                cur == dd_fold(s.take(i as int)).cur,
                cur_dur == dd_fold(s.take(i as int)).cur_dur,
                maxd == dd_fold(s.take(i as int)).max,
                max_dur == dd_fold(s.take(i as int)).max_dur,
                -((i as int) * 0x8000_0000_0000_0000) <= tp <= (i as int) * 0x8000_0000_0000_0000,
                -((i as int) * 0x8000_0000_0000_0000) <= tc <= (i as int) * 0x8000_0000_0000_0000,
                -((i as int) * 0x8000_0000_0000_0000) <= cur <= 0,
                -((i as int) * 0x8000_0000_0000_0000) <= maxd <= 0,
                wins + losses == i,
                cur_dur <= i,
                max_dur <= i,
            decreases n - i,
        {
            let t = trade_list[i];
            let p = t.profit.unwrap();
            proof {
                assert(s.take(i + 1).drop_last() =~= s.take(i as int));
                assert(s.take(i + 1).last() == s[i as int]);
            }
            tp = tp + p as i128;
            tc = tc + t.commission as i128;
            if p > 0 {
                wins = wins + 1;
            } else {
                losses = losses + 1;
            }
            if p < 0 {
                cur = cur + p as i128;
                cur_dur = cur_dur + 1;
            } else {
                if cur < maxd {
                    maxd = cur;
                    max_dur = cur_dur;
                }
                cur = 0;
                cur_dur = 0;
            }
            i = i + 1;
        }
        proof {
            assert(s.take(n as int) =~= s);
        }
        let final_maxd: i128;
        let final_max_dur: usize;
        if cur < maxd {
            final_maxd = cur;
            final_max_dur = cur_dur;
        } else {
            final_maxd = maxd;
            final_max_dur = max_dur;
        }
        if !(i64::MIN as i128 <= tp && tp <= i64::MAX as i128 && i64::MIN as i128 <= tc
            && tc <= i64::MAX as i128 && i64::MIN as i128 <= final_maxd) {
            return false;
        }
        let win_rate: i64 = if n > 0 {
            proof {
                lemma_mul_bound(wins as int, i64::MAX as int, BPS_SCALE as int, BPS_SCALE as int);
                lemma_wr_le(wins as int, n as int);
            }
            ((wins as u128) * (BPS_SCALE as u128) / (n as u128)) as i64
        } else {
            0
        };
        let avg_profit: i64 = if wins > 0 {
            div_trunc_i64(tp, wins)
        } else {
            0
        };
        let avg_loss: i64 = if losses > 0 {
            div_trunc_i64(tp, losses)
        } else {
            0
        };
        self.total_trades = n;
        self.total_profit = tp as i64;
        self.total_commission = tc as i64;
        self.win_rate = win_rate;
        self.avg_profit = avg_profit;
        self.avg_loss = avg_loss;
        self.max_drawdown = final_maxd as i64;
        self.max_drawdown_duration = final_max_dur;
        true
    }
}

/// Everything one simulation run produces: the closed trades in order, the
/// equity curve, and the summary statistics.
#[derive(Debug, Clone)]
pub struct SessionRecap {
    pub trades: Vec<Trade>,
    pub equity_curve: Vec<(i64, i64)>,
    pub metrics: Metrics,
}

impl SessionRecap {
    /// Bundles a finished run's outputs.
    pub fn new(trades: Vec<Trade>, equity_curve: Vec<(i64, i64)>, metrics: Metrics) -> (r:
        SessionRecap)
        ensures
            r.trades == trades,
            r.equity_curve == equity_curve,
            r.metrics == metrics,
    {
        SessionRecap { trades, equity_curve, metrics }
    }
}

/// Ghost state of a running simulation: the strategy and the portfolio.
#[verifier::ext_equal]
pub ghost struct SimState {
    pub strat: StrategyModel,
    pub port: PortfolioModel,
}

/// The state a run starts from: a fresh strategy and a portfolio holding the
/// configured starting funds.
pub open spec fn init_state(cfg: Config) -> SimState {
    SimState {
        strat: StrategyModel {
            position: Direction::Flat,
            sma_window: cfg.sma_window,
            prices: Seq::<i64>::empty(),
        },
        port: PortfolioModel {
            cash: cfg.base_funds,
            open_trade: None,
            closed_trades: Seq::<Trade>::empty(),
            equity_curve: Seq::<(i64, i64)>::empty(),
            log: Seq::<LogEvent>::empty(),
            commission_rate: cfg.transaction_fee,
            slippage: cfg.slippage,
            trade_fraction: cfg.trade_fraction,
        },
    }
}

/// One tick of the driver: the bar goes to the strategy; on a decision the
/// portfolio enters long, exits, or holds, and then one equity sample is
/// taken; a warm-up tick does nothing at all. `None` means the run aborts
/// because a settlement or equity value left the fixed-point range.
pub open spec fn sim_step(st: SimState, k: Kline, lvl: LogLevel) -> Option<SimState> {
    let tick = on_tick_m(st.strat, k.close);
    let s2 = tick.0;
    match tick.1 {
        None => Some(SimState { strat: s2, port: st.port }),
        Some(Signal::Buy) => {
            let p2 = enter_m(st.port, k.timestamp, k.close, Direction::Long, lvl).0;
            let upd = update_m(p2, k.timestamp, k.close);
            if upd.1 {
                Some(SimState { strat: s2, port: upd.0 })
            } else {
                None
            }
        },
        Some(Signal::Sell) => {
            let ex = exit_m(st.port, k.timestamp, k.close, lvl);
            if ex.1 == ExitOutcome::OutOfRange {
                None
            } else {
                let upd = update_m(ex.0, k.timestamp, k.close);
                if upd.1 {
                    Some(SimState { strat: s2, port: upd.0 })
                } else {
                    None
                }
            }
        },
        Some(Signal::Hold) => {
            let upd = update_m(st.port, k.timestamp, k.close);
            if upd.1 {
                Some(SimState { strat: s2, port: upd.0 })
            } else {
                None
            }
        },
    }
}

/// The driver's state after the whole bar series, bar by bar in order;
/// `None` as soon as any tick aborts.
pub open spec fn sim_steps(cfg: Config, ks: Seq<Kline>) -> Option<SimState>
    decreases ks.len(),
{
    if ks.len() == 0 {
        Some(init_state(cfg))
    } else {
        match sim_steps(cfg, ks.drop_last()) {
            None => None,
            Some(st) => sim_step(st, ks.last(), cfg.log_level),
        }
    }
}

/// A whole run: all bars, then a forced exit of a still-open trade at the
/// last bar's time and price, then the summary statistics of the finished
/// ledger. `None` when any step aborts or an aggregate figure leaves the
/// fixed-point range.
pub open spec fn run_m(cfg: Config, ks: Seq<Kline>) -> Option<(PortfolioModel, Metrics)> {
    match sim_steps(cfg, ks) {
        None => None,
        Some(st) => {
            let p = st.port;
            if p.open_trade is Some {
                let ex = exit_m(p, ks.last().timestamp, ks.last().close, cfg.log_level);
                if ex.1 == ExitOutcome::OutOfRange {
                    None
                } else if metrics_fits(ex.0.closed_trades) {
                    Some((ex.0, metrics_m(ex.0.closed_trades)))
                } else {
                    None
                }
            } else {
                if metrics_fits(p.closed_trades) {
                    Some((p, metrics_m(p.closed_trades)))
                } else {
                    None
                }
            }
        },
    }
}

/// Once the driver's fold aborts on some prefix, it aborts on the whole
/// series.
proof fn lemma_steps_none(cfg: Config, ks: Seq<Kline>, i: int)
    requires
        0 <= i <= ks.len(),
        sim_steps(cfg, ks.take(i)) is None,
    ensures
        sim_steps(cfg, ks) is None,
    decreases ks.len() - i,
{
    if i == ks.len() {
        assert(ks.take(i) =~= ks);
    } else {
        assert(ks.take(i + 1).drop_last() =~= ks.take(i));
        lemma_steps_none(cfg, ks, i + 1);
    }
}

/// A long entry never slips below the raw price, so it stays representable.
proof fn lemma_long_slip_ge(price: int, slippage: int)
    requires
        price >= 1,
        slippage >= 0,
    ensures
        slipped_entry(price, slippage, Direction::Long) >= price,
{
    let b = BPS_SCALE as int;
    assert(price * b <= price * (b + slippage)) by (nonlinear_arith)
        requires
            price >= 1,
            slippage >= 0,
            b >= 1,
    ;
    vstd::arithmetic::div_mod::lemma_div_is_ordered(price * b, price * (b + slippage), b);
    vstd::arithmetic::div_mod::lemma_div_by_multiple(price, b);
}

/// Replays `klines` through a fresh crossover strategy and portfolio built
/// from `config`, force-exits any trade still open after the last bar, and
/// computes the summary statistics; see [`run_m`] for the exact result.
/// Returns the recap together with the accumulated log records, or `None`
/// when a settlement, equity or aggregate figure leaves the fixed-point
/// range.
pub fn run_simulation(config: &Config, klines: &Vec<Kline>) -> (r: Option<
    (SessionRecap, Vec<LogEvent>),
>)
    requires
        config.wf(),
        forall|i: int| 0 <= i < klines@.len() ==> 1 <= (#[trigger] klines@[i]).close <= MAX_PRICE,
        klines@.len() < i64::MAX,
    ensures
        r is Some <==> run_m(*config, klines@) is Some,
        r is Some ==> {
            let pm = run_m(*config, klines@)->0;
            &&& (r->0).0.trades@ == pm.0.closed_trades
            &&& (r->0).0.equity_curve@ == pm.0.equity_curve
            &&& (r->0).0.metrics == pm.1
            &&& (r->0).1@ == pm.0.log
        },
{
    let ghost ks = klines@;
    let mut portfolio = Portfolio::new(
        config.base_funds,
        config.transaction_fee,
        config.slippage,
        config.trade_fraction,
    );
    let mut strategy = SimpleStrategy::new(config.sma_window);
    let n = klines.len();
    let mut i: usize = 0;
    proof {
        assert(ks.take(0) =~= Seq::<Kline>::empty());
        assert(sim_steps(*config, ks.take(0)) == Some(
            SimState { strat: strategy@, port: portfolio@ },
        ));
    }
    while i < n
        invariant
            0 <= i <= n,
            n == ks.len() < i64::MAX,
            klines@ == ks,
            config.wf(),
            forall|j: int| 0 <= j < ks.len() ==> 1 <= (#[trigger] ks[j]).close <= MAX_PRICE,
            sim_steps(*config, ks.take(i as int)) == Some(
                SimState { strat: strategy@, port: portfolio@ },
            ),
            strategy@.wf(),
            portfolio@.wf(),
            portfolio@.closed_trades.len() <= i,
            portfolio@.open_trade is Some ==> i >= 1,
        decreases n - i,
    {
        let k = klines[i];
        proof {
            assert(ks.take(i + 1).drop_last() =~= ks.take(i as int));
            assert(ks.take(i + 1).last() == ks[i as int]);
        }
        let sig = strategy.next_signal(&k);
        match sig {
            None => {},
            Some(Signal::Buy) => {
                proof {
                    lemma_long_slip_ge(k.close as int, portfolio@.slippage as int);
                }
                portfolio.enter_trade(
                    k.timestamp,
                    k.close,
                    Direction::Long,
                    &config.log_level,
                );
                if !portfolio.update(k.timestamp, k.close) {
                    proof {
                        lemma_steps_none(*config, ks, i + 1);
                    }
                    return None;
                }
            },
            Some(Signal::Sell) => {
                let outcome = portfolio.exit_trade(k.timestamp, k.close, &config.log_level);
                if matches!(outcome, ExitOutcome::OutOfRange) {
                    proof {
                        lemma_steps_none(*config, ks, i + 1);
                    }
                    return None;
                }
                if !portfolio.update(k.timestamp, k.close) {
                    proof {
                        lemma_steps_none(*config, ks, i + 1);
                    }
                    return None;
                }
            },
            Some(Signal::Hold) => {
                if !portfolio.update(k.timestamp, k.close) {
                    proof {
                        lemma_steps_none(*config, ks, i + 1);
                    }
                    return None;
                }
            },
        }
        i = i + 1;
    }
    proof {
        assert(ks.take(n as int) =~= ks);
    }
    if portfolio.open_trade.is_some() {
        let last = klines[n - 1];
        let outcome = portfolio.exit_trade(last.timestamp, last.close, &config.log_level);
        if matches!(outcome, ExitOutcome::OutOfRange) {
            return None;
        }
    }
    let mut metrics = Metrics::new();
    proof {
        assert(forall|j: int|
            0 <= j < portfolio@.closed_trades.len() ==> (#[trigger] portfolio@.closed_trades[j])
                .profit is Some);
    }
    let fits = metrics.compute(&portfolio.closed_trades);
    if !fits {
        return None;
    }
    let Portfolio { closed_trades, equity_curve, log, .. } = portfolio;
    let recap = SessionRecap::new(closed_trades, equity_curve, metrics);
    Some((recap, log))
}

/// There is never more than one open trade — the `open_trade` option — and
/// the ledger holds closed trades only: every trade in it has its exit date,
/// exit price and profit set, and a non-negative accumulated commission.
/// Every portfolio operation preserves this well-formedness.
pub proof fn lemma_ledger_all_closed(p: PortfolioModel)
    requires
        p.wf(),
    ensures
        forall|i: int| 0 <= i < p.closed_trades.len() ==> (#[trigger] p.closed_trades[i]).exit_date is Some
            && p.closed_trades[i].exit_price is Some && p.closed_trades[i].profit is Some
            && p.closed_trades[i].commission >= 0,
{
}

/// Entering never drives cash negative: the allocation is capped by the
/// available cash, and with no allocatable cash the entry is refused.
pub proof fn lemma_enter_keeps_cash_nonneg(
    p: PortfolioModel,
    date: i64,
    price: i64,
    direction: Direction,
    lvl: LogLevel,
)
    requires
        p.wf(),
        p.cash >= 0,
    ensures
        enter_m(p, date, price, direction, lvl).0.cash >= 0,
{
    if p.open_trade is None {
        let alloc = bps_of(p.cash as int, p.trade_fraction as int);
        if alloc > 0 {
            lemma_scaled_le(p.cash as int, p.trade_fraction as int, BPS_SCALE as int);
        }
    }
}

/// A closed trade's commission is never negative and is exactly the entry
/// charge plus the exit charge, each `allocated * commission_rate /
/// BPS_SCALE`.
pub proof fn lemma_commission_accumulates(
    p: PortfolioModel,
    d1: i64,
    x1: i64,
    direction: Direction,
    d2: i64,
    x2: i64,
    lvl: LogLevel,
)
    requires
        p.wf(),
        enter_m(p, d1, x1, direction, lvl).1 == EnterOutcome::Entered,
        exit_m(enter_m(p, d1, x1, direction, lvl).0, d2, x2, lvl).1 == ExitOutcome::Closed,
    ensures
        ({
            let p1 = enter_m(p, d1, x1, direction, lvl).0;
            let t = p1.open_trade->0;
            let charge = bps_of(t.allocated as int, p.commission_rate as int);
            let closed = exit_m(p1, d2, x2, lvl).0.closed_trades.last();
            &&& closed.commission == t.commission + charge
            &&& t.commission == charge
            &&& closed.commission >= 0
        }),
{
    let alloc = bps_of(p.cash as int, p.trade_fraction as int);
    if p.cash > 0 {
        lemma_scaled_le(p.cash as int, p.trade_fraction as int, BPS_SCALE as int);
    } else {
        lemma_bps_nonpos(p.cash as int, p.trade_fraction as int);
    }
    lemma_scaled_le(alloc, p.commission_rate as int, BPS_SCALE as int);
}

/// Exiting twice in a row without an intervening entry performs the state
/// mutation only once: unless the first call aborted on a value out of
/// range, the second finds no open trade and changes nothing but possibly
/// the log.
pub proof fn lemma_exit_idempotent(
    p: PortfolioModel,
    d1: i64,
    x1: i64,
    d2: i64,
    x2: i64,
    lvl: LogLevel,
)
    requires
        p.wf(),
        exit_m(p, d1, x1, lvl).1 != ExitOutcome::OutOfRange,
    ensures
        ({
            let p1 = exit_m(p, d1, x1, lvl).0;
            let second = exit_m(p1, d2, x2, lvl);
            &&& second.1 == ExitOutcome::NoPosition
            &&& second.0.cash == p1.cash
            &&& second.0.open_trade == p1.open_trade
            &&& second.0.closed_trades == p1.closed_trades
            &&& second.0.equity_curve == p1.equity_curve
        }),
{
}

/// A run over fewer bars than the warm-up window takes no decision at all:
/// the strategy only fills its buffer and the portfolio is never touched.
proof fn lemma_warmup_steps(cfg: Config, ks: Seq<Kline>)
    requires
        cfg.wf(),
        ks.len() < cfg.sma_window,
    ensures
        sim_steps(cfg, ks) is Some,
        sim_steps(cfg, ks)->0.port == init_state(cfg).port,
        sim_steps(cfg, ks)->0.strat.prices.len() == ks.len(),
        sim_steps(cfg, ks)->0.strat.sma_window == cfg.sma_window,
    decreases ks.len(),
{
    if ks.len() == 0 {
    } else {
        lemma_warmup_steps(cfg, ks.drop_last());
    }
}

/// A run over zero bars, or over fewer bars than the warm-up window, must
/// not fail: it yields an empty trade ledger, an empty equity curve, an
/// empty log and the all-zero statistics.
pub proof fn lemma_short_run_is_empty(cfg: Config, ks: Seq<Kline>)
    requires
        cfg.wf(),
        ks.len() < cfg.sma_window,
    ensures
        run_m(cfg, ks) is Some,
        ({
            let pm = run_m(cfg, ks)->0;
            &&& pm.0.closed_trades == Seq::<Trade>::empty()
            &&& pm.0.equity_curve == Seq::<(i64, i64)>::empty()
            &&& pm.0.log == Seq::<LogEvent>::empty()
            &&& pm.1 == (Metrics {
                total_trades: 0,
                total_profit: 0,
                total_commission: 0,
                win_rate: 0,
                avg_profit: 0,
                avg_loss: 0,
                max_drawdown: 0,
                max_drawdown_duration: 0,
            })
        }),
{
    lemma_warmup_steps(cfg, ks);
    assert(sim_steps(cfg, ks)->0.port.closed_trades =~= Seq::<Trade>::empty());
}

/// `a / b` rounded toward zero, for a value already known to fit an `i64`.
fn div_trunc_i64(a: i128, b: usize) -> (r: i64)
    requires
        i64::MIN <= a <= i64::MAX,
        b >= 1,
    ensures
        r == trunc_div(a as int, b as int),
{
    if a >= 0 {
        proof {
            lemma_div_le_self(a as int, b as int);
        }
        ((a as u128) / (b as u128)) as i64
    } else {
        proof {
            lemma_div_le_self(-(a as int), b as int);
        }
        let q: u128 = ((-a) as u128) / (b as u128);
        (-(q as i128)) as i64
    }
}

/// A win rate never exceeds one: `wins` of `n` trades scale to at most
/// `BPS_SCALE` basis points.
proof fn lemma_wr_le(wins: int, n: int)
    requires
        0 <= wins <= n,
        0 < n,
    ensures
        0 <= wins * (BPS_SCALE as int) / n <= BPS_SCALE,
{
    assert(wins * (BPS_SCALE as int) == (BPS_SCALE as int) * wins) by (nonlinear_arith);
    lemma_scaled_le(BPS_SCALE as int, wins, n);
}

/// For a non-positive amount and a positive rate the scaled allocation is
/// non-positive too: entering with empty pockets is always refused.
proof fn lemma_bps_nonpos(amount: int, rate: int)
    requires
        amount <= 0,
        rate > 0,
    ensures
        bps_of(amount, rate) <= 0,
{
    assert(amount * rate <= 0) by (nonlinear_arith)
        requires
            amount <= 0,
            rate > 0,
    ;
    assert(amount * rate / (BPS_SCALE as int) <= 0) by {
        vstd::arithmetic::div_mod::lemma_div_is_ordered(amount * rate, 0, BPS_SCALE as int);
        vstd::arithmetic::div_mod::lemma_div_basics_1(BPS_SCALE as int);
    }
}

/// A product of two values stays under the product of their bounds.
proof fn lemma_mul_bound(a: int, amax: int, b: int, bmax: int)
    requires
        0 <= a <= amax,
        0 <= b <= bmax,
    ensures
        0 <= a * b <= amax * bmax,
{
    assert(0 <= a * b <= amax * bmax) by (nonlinear_arith)
        requires
            0 <= a <= amax,
            0 <= b <= bmax,
    ;
}

/// Scaling by at most `den` basis points over `den` never enlarges a
/// non-negative amount.
proof fn lemma_scaled_le(a: int, b: int, den: int)
    requires
        0 <= a,
        0 <= b <= den,
        0 < den,
    ensures
        0 <= a * b / den <= a,
{
    assert(a * b <= a * den) by (nonlinear_arith)
        requires
            0 <= a,
            b <= den,
    ;
    assert(0 <= a * b) by (nonlinear_arith)
        requires
            0 <= a,
            0 <= b,
    ;
    vstd::arithmetic::div_mod::lemma_div_is_ordered(0, a * b, den);
    vstd::arithmetic::div_mod::lemma_div_basics_1(den);
    vstd::arithmetic::div_mod::lemma_div_is_ordered(a * b, a * den, den);
    vstd::arithmetic::div_mod::lemma_div_by_multiple(a, den);
}

/// Dividing a non-negative value by a positive divisor never enlarges it.
proof fn lemma_div_le_self(x: int, den: int)
    requires
        0 <= x,
        1 <= den,
    ensures
        0 <= x / den <= x,
{
    vstd::arithmetic::div_mod::lemma_div_is_ordered_by_denominator(x, 1, den);
    vstd::arithmetic::div_mod::lemma_div_basics_2(x);
    vstd::arithmetic::div_mod::lemma_div_is_ordered(0, x, den);
    vstd::arithmetic::div_mod::lemma_div_basics_1(den);
}

/// A price at most `MAX_PRICE`, scaled by a factor of at most two, stays
/// representable.
proof fn lemma_slip_div_halves(price: int, factor: int)
    requires
        0 <= price <= MAX_PRICE,
        0 <= factor <= 2 * BPS_SCALE,
    ensures
        0 <= price * factor / (BPS_SCALE as int) <= i64::MAX,
{
    lemma_scaled_le(price, factor, 2 * BPS_SCALE);
    assert(price * factor / (2 * BPS_SCALE) <= MAX_PRICE);
    let b = BPS_SCALE as int;
    assert(price * factor <= 2 * b * MAX_PRICE) by (nonlinear_arith)
        requires
            0 <= price <= MAX_PRICE,
            0 <= factor <= 2 * b,
            b == BPS_SCALE as int,
    ;
    vstd::arithmetic::div_mod::lemma_div_is_ordered(price * factor, 2 * b * MAX_PRICE, b);
    assert(2 * b * MAX_PRICE == (2 * MAX_PRICE) * b) by (nonlinear_arith);
    vstd::arithmetic::div_mod::lemma_div_by_multiple(2 * MAX_PRICE, b);
    assert(0 <= price * factor) by (nonlinear_arith)
        requires
            0 <= price,
            0 <= factor,
    ;
    vstd::arithmetic::div_mod::lemma_div_is_ordered(0, price * factor, b);
    vstd::arithmetic::div_mod::lemma_div_basics_1(b);
}

} // verus!
