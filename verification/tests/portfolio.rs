use backtester::config::LogLevel;
use backtester::testing::{Direction, EnterOutcome, ExitOutcome, LogEvent, Portfolio, Trade};

fn flat_cost_portfolio(cash: i64) -> Portfolio {
    // No slippage, no commission, a tenth of cash per trade.
    Portfolio::new(cash, 0, 0, 1000)
}

#[test]
fn long_round_trip_books_profit() {
    let mut p = flat_cost_portfolio(1000);
    let r = p.enter_trade(1, 100, Direction::Long, &LogLevel::Off);
    assert_eq!(r, EnterOutcome::Entered);
    assert_eq!(p.cash, 900);
    let t = p.open_trade.clone().unwrap();
    assert_eq!(t.allocated, 100);
    assert_eq!(t.entry_price, 100);
    assert_eq!(t.commission, 0);
    let r = p.exit_trade(2, 110, &LogLevel::Off);
    assert_eq!(r, ExitOutcome::Closed);
    assert_eq!(p.cash, 1010);
    assert!(p.open_trade.is_none());
    assert_eq!(p.closed_trades.len(), 1);
    let t = &p.closed_trades[0];
    assert_eq!(t.profit, Some(10));
    assert_eq!(t.exit_price, Some(110));
    assert_eq!(t.exit_date, Some(2));
    assert_eq!(t.commission, 0);
}

#[test]
fn short_trade_with_slippage_and_commission() {
    // Whole cash per trade, 1% slippage, 1% commission per side.
    let mut p = Portfolio::new(1000, 100, 100, 10000);
    let r = p.enter_trade(5, 100, Direction::Short, &LogLevel::Off);
    assert_eq!(r, EnterOutcome::Entered);
    assert_eq!(p.cash, 0);
    let t = p.open_trade.clone().unwrap();
    assert_eq!(t.allocated, 1000);
    // Short entry slips down: 100 * 9900 / 10000.
    assert_eq!(t.entry_price, 99);
    assert_eq!(t.commission, 10);
    let r = p.exit_trade(6, 90, &LogLevel::Off);
    assert_eq!(r, ExitOutcome::Closed);
    let t = &p.closed_trades[0];
    // Short exit slips up: 90 * 10100 / 10000, truncated.
    assert_eq!(t.exit_price, Some(90));
    // Raw profit 1000 * (99 - 90) / 99 = 90, minus 20 commission.
    assert_eq!(t.commission, 20);
    assert_eq!(t.profit, Some(70));
    assert_eq!(p.cash, 1070);
}

#[test]
fn double_entry_is_refused() {
    let mut p = flat_cost_portfolio(1000);
    assert_eq!(p.enter_trade(1, 100, Direction::Long, &LogLevel::Info), EnterOutcome::Entered);
    let cash_before = p.cash;
    let r = p.enter_trade(2, 105, Direction::Long, &LogLevel::Info);
    assert_eq!(r, EnterOutcome::AlreadyOpen);
    assert_eq!(p.cash, cash_before);
    assert_eq!(p.closed_trades.len(), 0);
    assert_eq!(p.log, vec![LogEvent::TradeAlreadyOpen { date: 2 }]);
}

#[test]
fn insufficient_funds_is_refused() {
    // A tenth of one unit rounds down to nothing.
    let mut p = flat_cost_portfolio(1);
    let r = p.enter_trade(1, 100, Direction::Long, &LogLevel::Info);
    assert_eq!(r, EnterOutcome::InsufficientFunds);
    assert!(p.open_trade.is_none());
    assert_eq!(p.cash, 1);
    assert_eq!(p.log, vec![LogEvent::InsufficientFunds { date: 1 }]);
}

#[test]
fn exit_without_position_is_a_no_op() {
    let mut p = flat_cost_portfolio(1000);
    let r = p.exit_trade(1, 100, &LogLevel::Info);
    assert_eq!(r, ExitOutcome::NoPosition);
    assert_eq!(p.cash, 1000);
    assert_eq!(p.closed_trades.len(), 0);
    assert_eq!(p.log, vec![LogEvent::NoTradeToExit { date: 1 }]);
}

#[test]
fn second_exit_mutates_nothing() {
    let mut p = flat_cost_portfolio(1000);
    p.enter_trade(1, 100, Direction::Long, &LogLevel::Off);
    assert_eq!(p.exit_trade(2, 110, &LogLevel::Off), ExitOutcome::Closed);
    let cash = p.cash;
    let trades = p.closed_trades.clone();
    let curve = p.equity_curve.clone();
    assert_eq!(p.exit_trade(3, 120, &LogLevel::Off), ExitOutcome::NoPosition);
    assert_eq!(p.cash, cash);
    assert_eq!(p.closed_trades, trades);
    assert_eq!(p.equity_curve, curve);
}

#[test]
fn settlement_out_of_range_changes_nothing() {
    // The whole cash pile allocated at an entry price of one unit, then an
    // exit at the largest price: the profit cannot be represented.
    let mut p = Portfolio::new(i64::MAX / 2, 0, 0, 10000);
    assert_eq!(p.enter_trade(1, 1, Direction::Long, &LogLevel::Off), EnterOutcome::Entered);
    let cash_before = p.cash;
    let r = p.exit_trade(2, 0x3fff_ffff_ffff_ffff, &LogLevel::Off);
    assert_eq!(r, ExitOutcome::OutOfRange);
    assert!(p.open_trade.is_some());
    assert_eq!(p.cash, cash_before);
    assert_eq!(p.closed_trades.len(), 0);
}

#[test]
fn update_marks_to_market_without_costs() {
    // 1% commission and 1% slippage are charged on fills, but the
    // mark-to-market sample deliberately uses the raw price ratio.
    let mut p = Portfolio::new(1000, 100, 0, 1000);
    p.enter_trade(1, 100, Direction::Long, &LogLevel::Off);
    assert_eq!(p.cash, 900);
    assert!(p.update(2, 120));
    assert_eq!(p.equity_curve, vec![(2, 900 + 100 * 120 / 100)]);
    assert_eq!(p.total_equity(100), Some(1000));
}

#[test]
fn update_short_gains_when_price_falls() {
    let mut p = Portfolio::new(1000, 0, 0, 10000);
    p.enter_trade(1, 100, Direction::Short, &LogLevel::Off);
    assert_eq!(p.cash, 0);
    assert!(p.update(2, 50));
    // Short value: allocated * entry / price = 1000 * 100 / 50.
    assert_eq!(p.equity_curve, vec![(2, 2000)]);
}

#[test]
fn entry_commission_is_charged_up_front() {
    // 2% commission of a 100-unit allocation.
    let mut p = Portfolio::new(1000, 200, 0, 1000);
    p.enter_trade(1, 50, Direction::Long, &LogLevel::Off);
    let t = p.open_trade.clone().unwrap();
    assert_eq!(t.commission, 2);
    p.exit_trade(2, 50, &LogLevel::Off);
    let t: &Trade = &p.closed_trades[0];
    // Flat price: raw profit 0, both charges remain.
    assert_eq!(t.commission, 4);
    assert_eq!(t.profit, Some(-4));
    assert_eq!(p.cash, 900 + 100 - 4);
}

#[test]
fn verbose_log_records_entries_and_exits() {
    let mut p = flat_cost_portfolio(1000);
    p.enter_trade(1, 100, Direction::Long, &LogLevel::All);
    p.exit_trade(2, 110, &LogLevel::All);
    assert_eq!(
        p.log,
        vec![
            LogEvent::TradeEntered {
                date: 1,
                direction: Direction::Long,
                entry_price: 100,
                commission: 0,
                allocated: 100,
                cash: 900,
            },
            LogEvent::TradeExited {
                date: 2,
                exit_price: 110,
                profit: 10,
                commission: 0,
                cash: 1010,
            },
        ]
    );
}

#[test]
fn info_log_skips_details_and_off_skips_all() {
    let mut p = flat_cost_portfolio(1000);
    p.enter_trade(1, 100, Direction::Long, &LogLevel::Info);
    p.exit_trade(2, 110, &LogLevel::Info);
    assert!(p.log.is_empty());
    let mut q = flat_cost_portfolio(1000);
    q.enter_trade(1, 100, Direction::Long, &LogLevel::Off);
    q.enter_trade(2, 100, Direction::Long, &LogLevel::Off);
    assert!(q.log.is_empty());
}
