use backtester::historical::Kline;
use backtester::strategy::{Signal, SimpleStrategy, Strategy};
use backtester::testing::Direction;

fn bar(timestamp: i64, close: i64) -> Kline {
    Kline { timestamp, open: close, high: close, low: close, close, volume: 1 }
}

#[test]
fn warmup_emits_no_decision() {
    let mut s = SimpleStrategy::new(5);
    for i in 0..4 {
        let sig = s.on_tick(&bar(i, 100));
        assert!(sig.is_none());
        assert_eq!(s.position, Direction::Flat);
    }
    // The fifth constant-price bar fills the window; the close equals the
    // average, so the first decision is a hold.
    let sig = s.on_tick(&bar(4, 100));
    assert!(matches!(sig, Some(Signal::Hold)));
    assert_eq!(s.position, Direction::Flat);
}

#[test]
fn crossover_signals_buy_then_sell_once() {
    let mut s = SimpleStrategy::new(2);
    assert!(s.on_tick(&bar(0, 100)).is_none());
    // Average of (100, 110) is 105; 110 above it while flat: buy.
    assert!(matches!(s.on_tick(&bar(1, 110)), Some(Signal::Buy)));
    assert_eq!(s.position, Direction::Long);
    // Still above the average and already long: hold, not a second buy.
    assert!(matches!(s.on_tick(&bar(2, 120)), Some(Signal::Hold)));
    // Average of (120, 90) is 105; 90 below it while long: sell.
    assert!(matches!(s.on_tick(&bar(3, 90)), Some(Signal::Sell)));
    assert_eq!(s.position, Direction::Short);
    // Below the average and already short: hold.
    assert!(matches!(s.on_tick(&bar(4, 60)), Some(Signal::Hold)));
}

#[test]
fn sma_averages_only_the_window() {
    let mut s = SimpleStrategy::new(3);
    assert_eq!(s.calculate_sma(), None);
    s.on_tick(&bar(0, 10));
    s.on_tick(&bar(1, 20));
    assert_eq!(s.calculate_sma(), None);
    s.on_tick(&bar(2, 40));
    // (10 + 20 + 40) / 3, rounded down.
    assert_eq!(s.calculate_sma(), Some(23));
    s.on_tick(&bar(3, 100));
    // The oldest price has left the window: (20 + 40 + 100) / 3.
    assert_eq!(s.calculate_sma(), Some(53));
}
