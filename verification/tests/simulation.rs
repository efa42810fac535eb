use backtester::config::{Config, LogLevel};
use backtester::historical::Kline;
use backtester::testing::{run_simulation, Metrics, SessionRecap};

fn bar(timestamp: i64, close: i64) -> Kline {
    Kline { timestamp, open: close, high: close + 1, low: close - 1, close, volume: 1 }
}

fn config(sma_window: usize) -> Config {
    Config {
        base_funds: 1000,
        transaction_fee: 0,
        slippage: 0,
        trade_fraction: 1000,
        sma_window,
        log_level: LogLevel::Off,
    }
}

fn zero_metrics() -> Metrics {
    Metrics {
        total_trades: 0,
        total_profit: 0,
        total_commission: 0,
        win_rate: 0,
        avg_profit: 0,
        avg_loss: 0,
        max_drawdown: 0,
        max_drawdown_duration: 0,
    }
}

#[test]
fn run_with_zero_bars_yields_empty_recap() {
    let (recap, log) = run_simulation(&config(14), &Vec::new()).unwrap();
    assert!(recap.trades.is_empty());
    assert!(recap.equity_curve.is_empty());
    assert_eq!(recap.metrics, zero_metrics());
    assert!(log.is_empty());
}

#[test]
fn run_shorter_than_window_yields_empty_recap() {
    let klines = vec![bar(1, 100), bar(2, 110), bar(3, 120)];
    let (recap, log) = run_simulation(&config(14), &klines).unwrap();
    assert!(recap.trades.is_empty());
    assert!(recap.equity_curve.is_empty());
    assert_eq!(recap.metrics, zero_metrics());
    assert!(log.is_empty());
}

#[test]
fn rise_and_fall_books_one_trade() {
    let klines = vec![bar(1, 100), bar(2, 110), bar(3, 90)];
    let (recap, _log) = run_simulation(&config(2), &klines).unwrap();
    // Bar 1 is warm-up; bar 2 crosses above the average and buys at 110;
    // bar 3 crosses below and sells at 90.
    assert_eq!(recap.trades.len(), 1);
    let t = &recap.trades[0];
    assert_eq!(t.entry_date, 2);
    assert_eq!(t.entry_price, 110);
    assert_eq!(t.exit_date, Some(3));
    assert_eq!(t.exit_price, Some(90));
    // 100 * (90 - 110) / 110, truncated toward zero.
    assert_eq!(t.profit, Some(-18));
    // One equity sample per decided tick: after the buy and after the sell.
    assert_eq!(recap.equity_curve, vec![(2, 1000), (3, 982)]);
    assert_eq!(recap.metrics.total_trades, 1);
    assert_eq!(recap.metrics.total_profit, -18);
    assert_eq!(recap.metrics.win_rate, 0);
    assert_eq!(recap.metrics.avg_loss, -18);
    assert_eq!(recap.metrics.max_drawdown, -18);
    assert_eq!(recap.metrics.max_drawdown_duration, 1);
}

#[test]
fn open_trade_is_force_exited_at_the_last_bar() {
    let klines = vec![bar(1, 100), bar(2, 110)];
    let (recap, _log) = run_simulation(&config(2), &klines).unwrap();
    assert_eq!(recap.trades.len(), 1);
    let t = &recap.trades[0];
    assert_eq!(t.entry_date, 2);
    assert_eq!(t.exit_date, Some(2));
    assert_eq!(t.exit_price, Some(110));
    assert_eq!(t.profit, Some(0));
    // Only the buy tick was sampled; the forced exit happens after the loop.
    assert_eq!(recap.equity_curve, vec![(2, 1000)]);
    assert_eq!(recap.metrics.total_trades, 1);
    assert_eq!(recap.metrics.total_profit, 0);
}

#[test]
fn recap_new_bundles_its_parts() {
    let recap = SessionRecap::new(Vec::new(), vec![(1, 1000)], zero_metrics());
    assert!(recap.trades.is_empty());
    assert_eq!(recap.equity_curve, vec![(1, 1000)]);
    assert_eq!(recap.metrics, zero_metrics());
}
