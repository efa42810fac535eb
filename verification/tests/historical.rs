use backtester::graphing::{get_price_range, get_timestamp_range};
use backtester::historical::{to_klines, Kline, RawKline};

fn raw(timestamp: &str, close: i64) -> RawKline {
    RawKline {
        timestamp: timestamp.to_string(),
        open: close,
        high: close + 5,
        low: close - 5,
        close,
        volume: 3,
    }
}

#[test]
fn to_klines_resolves_timestamps() {
    let raws = vec![raw("2021-01-01 00:00:00", 100), raw("2021-01-01 00:01:00", 101)];
    let klines = to_klines(&raws).unwrap();
    assert_eq!(klines.len(), 2);
    assert_eq!(klines[0].timestamp, 1609459200);
    assert_eq!(klines[1].timestamp, 1609459260);
    assert_eq!(klines[0].open, 100);
    assert_eq!(klines[0].high, 105);
    assert_eq!(klines[0].low, 95);
    assert_eq!(klines[0].close, 100);
    assert_eq!(klines[0].volume, 3);
}

#[test]
fn to_klines_refuses_a_malformed_timestamp() {
    let raws = vec![raw("2021-01-01 00:00:00", 100), raw("not a date", 101)];
    assert!(to_klines(&raws).is_none());
    let raws = vec![raw("2021-13-01 00:00:00", 100)];
    assert!(to_klines(&raws).is_none());
}

#[test]
fn to_klines_of_nothing_is_nothing() {
    let klines = to_klines(&Vec::new()).unwrap();
    assert!(klines.is_empty());
}

fn bar(timestamp: i64, low: i64, high: i64) -> Kline {
    Kline { timestamp, open: low, high, low, close: high, volume: 1 }
}

#[test]
fn timestamp_range_spans_the_series() {
    let klines = vec![bar(50, 10, 20), bar(20, 10, 20), bar(80, 10, 20)];
    assert_eq!(get_timestamp_range(&klines), (20, 80));
}

#[test]
fn price_range_pads_by_a_tenth() {
    let klines = vec![bar(1, 100, 200), bar(2, 90, 250), bar(3, 120, 180)];
    // Lowest low 90 minus 9, highest high 250 plus 25.
    assert_eq!(get_price_range(&klines), (81, 275));
}
