//! Price bars and their conversion from raw textual records.
//!
//! A [`RawKline`] is one record as it comes from a data file: a textual
//! timestamp and already fixed-point prices. [`to_klines`] turns a batch of
//! them into [`Kline`] bars, resolving each timestamp to Unix seconds.

use vstd::prelude::*;

verus! {

/// One raw bar record: a textual timestamp of the form
/// `"%Y-%m-%d %H:%M:%S"` and fixed-point OHLCV fields.
#[derive(Debug, Clone, PartialEq, Eq)]
pub struct RawKline {
    pub timestamp: String,
    pub open: i64,
    pub high: i64,
    pub low: i64,
    pub close: i64,
    pub volume: i64,
}

/// One price bar: Unix-seconds timestamp and fixed-point OHLCV fields.
#[derive(Debug, Clone, Copy, PartialEq, Eq, Structural)]
pub struct Kline {
    pub timestamp: i64,
    pub open: i64,
    pub high: i64,
    pub low: i64,
    pub close: i64,
    pub volume: i64,
}

/// The Unix timestamp that a `"%Y-%m-%d %H:%M:%S"` text resolves to, or
/// `None` where the text is not a date and time of that shape. The value is
/// a function of the characters alone.
pub uninterp spec fn parsed_timestamp(s: Seq<char>) -> Option<i64>;

/// Relies on chrono's `NaiveDateTime::parse_from_str` with the fixed format
/// `"%Y-%m-%d %H:%M:%S"`, and on `NaiveDateTime::and_utc` followed by
/// `DateTime::timestamp` to read the parsed date and time as Unix seconds.
/// All three are pure calendar computations on the characters alone.
#[verifier::external_body]
fn parse_timestamp(s: &str) -> (r: Option<i64>)
    ensures
        r == parsed_timestamp(s@),
{
    chrono::NaiveDateTime::parse_from_str(s, "%Y-%m-%d %H:%M:%S")
        .ok()
        .map(|dt| dt.and_utc().timestamp())
}

/// The bar a raw record stands for, where its timestamp resolves.
pub open spec fn kline_of(rk: RawKline) -> Kline {
    Kline {
        timestamp: parsed_timestamp(rk.timestamp@)->0,
        open: rk.open,
        high: rk.high,
        low: rk.low,
        close: rk.close,
        volume: rk.volume,
    }
}

/// Converts raw records to bars, resolving each timestamp; `None` when any
/// record's timestamp does not resolve.
pub fn to_klines(raw_klines: &Vec<RawKline>) -> (r: Option<Vec<Kline>>)
    ensures
        r is Some <==> (forall|i: int|
            0 <= i < raw_klines@.len() ==> parsed_timestamp(
                (#[trigger] raw_klines@[i]).timestamp@,
            ) is Some),
        r is Some ==> (r->0)@.len() == raw_klines@.len(),
        r is Some ==> (forall|i: int|
            0 <= i < raw_klines@.len() ==> (r->0)@[i] == kline_of(#[trigger] raw_klines@[i])),
{
    let mut out: Vec<Kline> = Vec::new();
    let n = raw_klines.len();
    let mut i: usize = 0;
    while i < n
        invariant
            0 <= i <= n,
            n == raw_klines@.len(),
            out@.len() == i,
            forall|j: int|
                0 <= j < i ==> parsed_timestamp((#[trigger] raw_klines@[j]).timestamp@) is Some,
            forall|j: int| 0 <= j < i ==> out@[j] == kline_of(#[trigger] raw_klines@[j]),
        decreases n - i,
    {
        let rk = &raw_klines[i];
        match parse_timestamp(rk.timestamp.as_str()) {
            None => {
                return None;
            },
            Some(ts) => {
                out.push(Kline {
                    timestamp: ts,
                    open: rk.open,
                    high: rk.high,
                    low: rk.low,
                    close: rk.close,
                    volume: rk.volume,
                });
            },
        }
        i = i + 1;
    }
    Some(out)
}

} // verus!
