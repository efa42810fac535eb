//! The compute half of chart rendering: the axis ranges a chart of a bar
//! series needs. Drawing itself is left to the caller.

use vstd::prelude::*;

use crate::historical::Kline;
use crate::MAX_PRICE;

verus! {

/// Smallest timestamp of a non-empty bar series.
pub open spec fn min_timestamp_of(s: Seq<Kline>) -> int
    decreases s.len(),
{
    if s.len() <= 1 {
        s[0].timestamp as int
    } else {
        let m = min_timestamp_of(s.drop_last());
        if s.last().timestamp < m {
            s.last().timestamp as int
        } else {
            m
        }
    }
}

/// Largest timestamp of a non-empty bar series.
pub open spec fn max_timestamp_of(s: Seq<Kline>) -> int
    decreases s.len(),
{
    if s.len() <= 1 {
        s[0].timestamp as int
    } else {
        let m = max_timestamp_of(s.drop_last());
        if s.last().timestamp > m {
            s.last().timestamp as int
        } else {
            m
        }
    }
}

/// Smallest low of a non-empty bar series.
pub open spec fn min_low_of(s: Seq<Kline>) -> int
    decreases s.len(),
{
    if s.len() <= 1 {
        s[0].low as int
    } else {
        let m = min_low_of(s.drop_last());
        if s.last().low < m {
            s.last().low as int
        } else {
            m
        }
    }
}

/// Largest high of a non-empty bar series.
pub open spec fn max_high_of(s: Seq<Kline>) -> int
    decreases s.len(),
{
    if s.len() <= 1 {
        s[0].high as int
    } else {
        let m = max_high_of(s.drop_last());
        if s.last().high > m {
            s.last().high as int
        } else {
            m
        }
    }
}

/// The time axis of a chart of `klines`: the smallest and largest timestamp.
pub fn get_timestamp_range(klines: &Vec<Kline>) -> (r: (i64, i64))
    requires
        klines@.len() > 0,
    ensures
        r.0 == min_timestamp_of(klines@),
        r.1 == max_timestamp_of(klines@),
{
    let mut lo = klines[0].timestamp;
    let mut hi = klines[0].timestamp;
    let n = klines.len();
    let mut i: usize = 1;
    proof {
        assert(klines@.take(1) =~= seq![klines@[0]]);
    }
    while i < n
        invariant
            1 <= i <= n,
            n == klines@.len(),
            lo == min_timestamp_of(klines@.take(i as int)),
            hi == max_timestamp_of(klines@.take(i as int)),
        decreases n - i,
    {
        proof {
            assert(klines@.take(i + 1).drop_last() =~= klines@.take(i as int));
            assert(klines@.take(i + 1).last() == klines@[i as int]);
        }
        if klines[i].timestamp < lo {
            lo = klines[i].timestamp;
        }
        if klines[i].timestamp > hi {
            hi = klines[i].timestamp;
        }
        i = i + 1;
    }
    proof {
        assert(klines@.take(n as int) =~= klines@);
    }
    (lo, hi)
}

/// The price axis of a chart of `klines`: the smallest low and the largest
/// high, each padded away from the data by a tenth of itself (rounded
/// toward zero).
pub fn get_price_range(klines: &Vec<Kline>) -> (r: (i64, i64))
    requires
        klines@.len() > 0,
        forall|i: int|
            0 <= i < klines@.len() ==> 1 <= (#[trigger] klines@[i]).low && klines@[i].low
                <= klines@[i].high <= MAX_PRICE,
    ensures
        r.0 == min_low_of(klines@) - min_low_of(klines@) / 10,
        r.1 == max_high_of(klines@) + max_high_of(klines@) / 10,
{
    let mut lo = klines[0].low;
    let mut hi = klines[0].high;
    let n = klines.len();
    let mut i: usize = 1;
    proof {
        assert(klines@.take(1) =~= seq![klines@[0]]);
    }
    while i < n
        invariant
            1 <= i <= n,
            n == klines@.len(),
            lo == min_low_of(klines@.take(i as int)),
            hi == max_high_of(klines@.take(i as int)),
            exists|j: int| 0 <= j < i && lo == (#[trigger] klines@[j]).low,
            exists|j: int| 0 <= j < i && hi == (#[trigger] klines@[j]).high,
        decreases n - i,
    {
        proof {
            assert(klines@.take(i + 1).drop_last() =~= klines@.take(i as int));
            assert(klines@.take(i + 1).last() == klines@[i as int]);
        }
        if klines[i].low < lo {
            lo = klines[i].low;
        }
        if klines[i].high > hi {
            hi = klines[i].high;
        }
        i = i + 1;
    }
    proof {
        assert(klines@.take(n as int) =~= klines@);
        lemma_div_le_self_price(lo as int);
        lemma_div_le_self_price(hi as int);
    }
    let pad_lo = ((lo as u128) / 10) as i64;
    let pad_hi = ((hi as u128) / 10) as i64;
    let min_price = lo - pad_lo;
    let max_price = hi + pad_hi;
    (min_price, max_price)
}

/// A tenth of a price in range is a representable, smaller price.
proof fn lemma_div_le_self_price(x: int)
    requires
        0 <= x,
    ensures
        0 <= x / 10 <= x,
{
    vstd::arithmetic::div_mod::lemma_div_is_ordered_by_denominator(x, 1, 10);
    vstd::arithmetic::div_mod::lemma_div_basics_2(x);
    vstd::arithmetic::div_mod::lemma_div_is_ordered(0, x, 10);
    vstd::arithmetic::div_mod::lemma_div_basics_1(10);
}

} // verus!
