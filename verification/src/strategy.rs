//! Signal generation: a strategy consumes one bar at a time and emits a
//! trading decision, or no decision while it is still warming up.
//!
//! The one concrete strategy is a simple moving-average crossover,
//! specified exactly by [`on_tick_m`].

use vstd::prelude::*;

use crate::historical::Kline;
use crate::testing::Direction;
use crate::MAX_PRICE;

verus! {

/// A trading decision for one bar.
#[derive(Debug, Clone, Copy, PartialEq, Eq, Structural)]
pub enum Signal {
    Buy,
    Sell,
    Hold,
}

/// A signal generator: fed one bar per tick, it answers with a decision, or
/// with `None` while its history is too short to decide.
pub trait Strategy {
    /// The generator's own well-formedness; feeding bars preserves it.
    spec fn strat_wf(&self) -> bool;

    /// Consumes one bar and answers with a decision, or `None` during
    /// warm-up. A caller must not trade or sample equity on a `None` tick.
    fn on_tick(&mut self, kline: &Kline) -> (r: Option<Signal>)
        requires
            old(self).strat_wf(),
            1 <= kline.close <= MAX_PRICE,
        ensures
            final(self).strat_wf(),
    ;
}

/// Ghost model of a [`SimpleStrategy`]: its tracked position, window length
/// and the closing prices seen so far.
#[verifier::ext_equal]
pub ghost struct StrategyModel {
    pub position: Direction,
    pub sma_window: usize,
    pub prices: Seq<i64>,
}

impl StrategyModel {
    /// A positive window, and every buffered price in the engine's range.
    pub open spec fn wf(self) -> bool {
        &&& self.sma_window >= 1
        &&& (forall|i: int| 0 <= i < self.prices.len() ==> 1 <= #[trigger] self.prices[i] <= MAX_PRICE)
    }
}

/// Sum of a sequence of prices.
pub open spec fn sum_int(s: Seq<i64>) -> int
    decreases s.len(),
{
    if s.len() == 0 {
        0
    } else {
        sum_int(s.drop_last()) + s.last()
    }
}

/// The simple moving average of the last `window` prices, rounded down;
/// meaningful when at least `window` prices are buffered.
pub open spec fn sma_m(prices: Seq<i64>, window: usize) -> int {
    sum_int(prices.subrange(prices.len() - window, prices.len() as int)) / (window as int)
}

/// The moving average once the buffer is long enough, `None` before.
pub open spec fn sma_opt(s: StrategyModel) -> Option<i64> {
    if s.prices.len() < s.sma_window {
        None
    } else {
        Some(sma_m(s.prices, s.sma_window) as i64)
    }
}

/// The exact effect of one tick of the crossover strategy: the close is
/// buffered; while fewer than `sma_window` prices are buffered there is no
/// decision; afterwards a close above the average signals `Buy` unless the
/// tracked position is already long, a close below it signals `Sell` unless
/// already short, and anything else is `Hold`.
pub open spec fn on_tick_m(s: StrategyModel, close: i64) -> (StrategyModel, Option<Signal>) {
    let ps = s.prices.push(close);
    let s2 = StrategyModel { prices: ps, ..s };
    if ps.len() < s.sma_window {
        (s2, None)
    } else {
        let sma = sma_m(ps, s.sma_window);
        if close > sma && s.position != Direction::Long {
            (StrategyModel { position: Direction::Long, ..s2 }, Some(Signal::Buy))
        } else if close < sma && s.position != Direction::Short {
            (StrategyModel { position: Direction::Short, ..s2 }, Some(Signal::Sell))
        } else {
            (s2, Some(Signal::Hold))
        }
    }
}

/// The simple moving-average crossover strategy: it buffers closing prices
/// and tracks the position it has signalled so far.
pub struct SimpleStrategy {
    pub position: Direction,
    pub sma_window: usize,
    pub prices: Vec<i64>,
}

impl View for SimpleStrategy {
    type V = StrategyModel;

    open spec fn view(&self) -> StrategyModel {
        StrategyModel { position: self.position, sma_window: self.sma_window, prices: self.prices@ }
    }
}

impl SimpleStrategy {
    /// A fresh crossover strategy with the given warm-up window.
    pub fn new(sma_window: usize) -> (r: SimpleStrategy)
        requires
            sma_window >= 1,
        ensures
            r@ == (StrategyModel {
                position: Direction::Flat,
                sma_window,
                prices: Seq::<i64>::empty(),
            }),
            r@.wf(),
    {
        let r = SimpleStrategy { position: Direction::Flat, sma_window, prices: Vec::new() };
        proof {
            assert(r@ =~= (StrategyModel {
                position: Direction::Flat,
                sma_window,
                prices: Seq::<i64>::empty(),
            }));
        }
        r
    }

    /// The simple moving average of the most recent `sma_window` buffered
    /// prices, or `None` while fewer are buffered.
    pub fn calculate_sma(&self) -> (r: Option<i64>)
        requires
            self@.wf(),
        ensures
            r == sma_opt(self@),
            r is Some ==> r->0 == sma_m(self@.prices, self@.sma_window),
    {
        let n = self.prices.len();
        let w = self.sma_window;
        if n < w {
            return None;
        }
        let start = n - w;
        let mut sum: u128 = 0;
        let mut j: usize = start;
        proof {
            assert(self.prices@.subrange(start as int, start as int) =~= Seq::<i64>::empty());
        }
        while j < n
            invariant
                start <= j <= n,
                n == self.prices@.len(),
                start == n - w,
                w >= 1,
                forall|k: int|
                    0 <= k < self.prices@.len() ==> 1 <= #[trigger] self.prices@[k] <= MAX_PRICE,
                sum == sum_int(self.prices@.subrange(start as int, j as int)),
                sum <= ((j - start) as int) * 0x3fff_ffff_ffff_ffff,
            decreases n - j,
        {
            proof {
                assert(self.prices@.subrange(start as int, j + 1).drop_last() =~= self.prices@
                    .subrange(start as int, j as int));
                assert(self.prices@.subrange(start as int, j + 1).last() == self.prices@[j as int]);
            }
            sum = sum + self.prices[j] as u128;
            j = j + 1;
        }
        proof {
            lemma_avg_in_range(self.prices@.subrange(start as int, n as int), w);
        }
        let sma = sum / (w as u128);
        Some(sma as i64)
    }

    /// One tick of the crossover strategy; see [`on_tick_m`] for the exact
    /// decision.
    pub fn next_signal(&mut self, kline: &Kline) -> (r: Option<Signal>)
        requires
            old(self)@.wf(),
            1 <= kline.close <= MAX_PRICE,
        ensures
            final(self)@ == on_tick_m(old(self)@, kline.close).0,
            r == on_tick_m(old(self)@, kline.close).1,
            final(self)@.wf(),
    {
        let ghost m = on_tick_m(old(self)@, kline.close);
        self.prices.push(kline.close);
        let sma = match self.calculate_sma() {
            None => {
                proof {
                    assert(self@ =~= m.0);
                }
                return None;
            },
            Some(sma) => sma,
        };
        if kline.close > sma && self.position != Direction::Long {
            self.position = Direction::Long;
            proof {
                assert(self@ =~= m.0);
            }
            Some(Signal::Buy)
        } else if kline.close < sma && self.position != Direction::Short {
            self.position = Direction::Short;
            proof {
                assert(self@ =~= m.0);
            }
            Some(Signal::Sell)
        } else {
            proof {
                assert(self@ =~= m.0);
            }
            Some(Signal::Hold)
        }
    }
}

impl Strategy for SimpleStrategy {
    open spec fn strat_wf(&self) -> bool {
        self@.wf()
    }

    fn on_tick(&mut self, kline: &Kline) -> (r: Option<Signal>) {
        self.next_signal(kline)
    }
}

/// While the generator is still warming up — fewer than `sma_window` prices
/// seen even after the incoming bar — a tick emits no decision at all, never
/// a buy or sell, and leaves the tracked position unchanged.
pub proof fn lemma_warmup_no_decision(s: StrategyModel, close: i64)
    requires
        s.prices.len() + 1 < s.sma_window,
    ensures
        on_tick_m(s, close).1 is None,
        on_tick_m(s, close).0.position == s.position,
{
}

/// The rounded average of a sequence of prices in the engine's range lies in
/// that range as well.
proof fn lemma_avg_in_range(s: Seq<i64>, w: usize)
    requires
        s.len() == w,
        w >= 1,
        forall|k: int| 0 <= k < s.len() ==> 1 <= #[trigger] s[k] <= MAX_PRICE,
    ensures
        0 <= sum_int(s),
        sum_int(s) <= (w as int) * (MAX_PRICE as int),
        0 <= sum_int(s) / (w as int) <= MAX_PRICE,
{
    lemma_sum_bounds(s);
    vstd::arithmetic::div_mod::lemma_div_is_ordered(0, sum_int(s), w as int);
    vstd::arithmetic::div_mod::lemma_div_basics_1(w as int);
    vstd::arithmetic::div_mod::lemma_div_is_ordered(
        sum_int(s),
        (w as int) * (MAX_PRICE as int),
        w as int,
    );
    assert((w as int) * (MAX_PRICE as int) == (MAX_PRICE as int) * (w as int)) by (nonlinear_arith);
    vstd::arithmetic::div_mod::lemma_div_by_multiple(MAX_PRICE as int, w as int);
}

/// Each price at least one and at most `MAX_PRICE` bounds the sum of the
/// sequence on both sides.
proof fn lemma_sum_bounds(s: Seq<i64>)
    requires
        forall|k: int| 0 <= k < s.len() ==> 1 <= #[trigger] s[k] <= MAX_PRICE,
    ensures
        (s.len() as int) <= sum_int(s) <= (s.len() as int) * (MAX_PRICE as int),
    decreases s.len(),
{
    if s.len() == 0 {
    } else {
        lemma_sum_bounds(s.drop_last());
        assert(((s.len() - 1) as int) * (MAX_PRICE as int) + (MAX_PRICE as int) == (s.len() as int)
            * (MAX_PRICE as int)) by (nonlinear_arith);
    }
}

} // verus!
