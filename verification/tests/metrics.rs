use backtester::testing::{Direction, Metrics, Trade};

fn closed_trade(date: i64, profit: i64, commission: i64) -> Trade {
    Trade {
        entry_date: date,
        exit_date: Some(date + 1),
        entry_price: 100,
        exit_price: Some(100),
        direction: Direction::Long,
        allocated: 100,
        profit: Some(profit),
        commission,
    }
}

#[test]
fn metrics_new_is_all_zero() {
    let m = Metrics::new();
    assert_eq!(m.total_trades, 0);
    assert_eq!(m.total_profit, 0);
    assert_eq!(m.total_commission, 0);
    assert_eq!(m.win_rate, 0);
    assert_eq!(m.avg_profit, 0);
    assert_eq!(m.avg_loss, 0);
    assert_eq!(m.max_drawdown, 0);
    assert_eq!(m.max_drawdown_duration, 0);
}

#[test]
fn empty_ledger_keeps_zero_metrics() {
    let mut m = Metrics::new();
    assert!(m.compute(&Vec::new()));
    assert_eq!(m, Metrics::new());
}

#[test]
fn single_loss_counts_as_final_drawdown() {
    let mut m = Metrics::new();
    assert!(m.compute(&vec![closed_trade(1, -50, 0)]));
    assert_eq!(m.total_trades, 1);
    assert_eq!(m.total_profit, -50);
    assert_eq!(m.max_drawdown, -50);
    assert_eq!(m.max_drawdown_duration, 1);
    assert_eq!(m.win_rate, 0);
    assert_eq!(m.avg_profit, 0);
    assert_eq!(m.avg_loss, -50);
}

#[test]
fn two_winners_one_loser() {
    let trades = vec![closed_trade(1, 10, 1), closed_trade(3, 20, 2), closed_trade(5, -5, 3)];
    let mut m = Metrics::new();
    assert!(m.compute(&trades));
    assert_eq!(m.total_trades, 3);
    assert_eq!(m.total_profit, 25);
    assert_eq!(m.total_commission, 6);
    // Two of three, in basis points, rounded down.
    assert_eq!(m.win_rate, 6666);
    // Both averages divide the aggregate profit by the respective count.
    assert_eq!(m.avg_profit, 12);
    assert_eq!(m.avg_loss, 25);
    assert_eq!(m.max_drawdown, -5);
    assert_eq!(m.max_drawdown_duration, 1);
}

#[test]
fn drawdown_takes_the_deepest_losing_run() {
    let trades = vec![
        closed_trade(1, -10, 0),
        closed_trade(2, 5, 0),
        closed_trade(3, -20, 0),
        closed_trade(4, -15, 0),
        closed_trade(5, 100, 0),
        closed_trade(6, -1, 0),
    ];
    let mut m = Metrics::new();
    assert!(m.compute(&trades));
    assert_eq!(m.max_drawdown, -35);
    assert_eq!(m.max_drawdown_duration, 2);
    assert_eq!(m.total_profit, 59);
    // 2 wins of 6 trades: 3333 basis points.
    assert_eq!(m.win_rate, 3333);
    // A zero-profit trade is not a win.
    assert_eq!(m.avg_profit, 29);
    assert_eq!(m.avg_loss, 14);
}

#[test]
fn zero_profit_counts_as_loss() {
    let mut m = Metrics::new();
    assert!(m.compute(&vec![closed_trade(1, 0, 0)]));
    assert_eq!(m.win_rate, 0);
    assert_eq!(m.avg_profit, 0);
    assert_eq!(m.avg_loss, 0);
    assert_eq!(m.max_drawdown, 0);
    assert_eq!(m.max_drawdown_duration, 0);
}

#[test]
fn negative_average_rounds_toward_zero() {
    let trades = vec![closed_trade(1, -5, 0), closed_trade(2, -5, 0), closed_trade(3, 3, 0)];
    let mut m = Metrics::new();
    assert!(m.compute(&trades));
    assert_eq!(m.total_profit, -7);
    // -7 / 2 losses, truncated toward zero.
    assert_eq!(m.avg_loss, -3);
    assert_eq!(m.avg_profit, -7);
    assert_eq!(m.max_drawdown, -10);
    assert_eq!(m.max_drawdown_duration, 2);
}

#[test]
fn unrepresentable_totals_are_reported() {
    let trades = vec![closed_trade(1, i64::MAX, 0), closed_trade(2, i64::MAX, 0)];
    let mut m = Metrics::new();
    m.total_profit = 7;
    assert!(!m.compute(&trades));
    // A refused computation leaves the metrics untouched.
    assert_eq!(m.total_profit, 7);
    assert_eq!(m.total_trades, 0);
}
