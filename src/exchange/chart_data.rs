//! Candles, their intervals, and the parameters of a request for them.
use crate::decimal::Dec;
use vstd::prelude::*;

verus! {

/// One candle of a price series. Prices are integers in units of
/// `10^(-price_scale)`, the scale being the series' own.
///
/// - `time_open`, `time_close`: Unix times of the bar, in milliseconds.
/// - `price_open`, `price_low`, `price_high`, `price_close`: the bar's prices.
/// - `volume`: the volume traded in the bar.
#[derive(Clone, Copy, Debug, PartialEq, Eq, Structural)]
pub struct KlinesSubset {
    pub time_open: u64,
    pub price_open: i64,
    pub price_low: i64,
    pub price_high: i64,
    pub price_close: i64,
    pub time_close: u64,
    pub volume: Dec,
}

/// A candle as an exchange that stamps bars in seconds reports it.
#[derive(Clone, Copy, Debug, PartialEq, Eq, Structural)]
pub struct Candle {
    pub timestamp: u64,
    pub price_low: i64,
    pub price_high: i64,
    pub price_open: i64,
    pub price_close: i64,
    pub volume: Dec,
}

/// Bar intervals, from one second to one week.
#[derive(Clone, Copy, Debug, PartialEq, Eq, Structural)]
pub enum Intervals {
    S1,
    M1,
    M3,
    M5,
    M15,
    M30,
    H1,
    H2,
    H4,
    H6,
    H8,
    H12,
    D1,
    D3,
    W1,
}

pub open spec fn interval_seconds(i: Intervals) -> u32 {
    match i {
        Intervals::S1 => 1,
        Intervals::M1 => 60,
        Intervals::M3 => 180,
        Intervals::M5 => 300,
        Intervals::M15 => 900,
        Intervals::M30 => 1800,
        Intervals::H1 => 3600,
        Intervals::H2 => 7200,
        Intervals::H4 => 14400,
        Intervals::H6 => 21600,
        Intervals::H8 => 28800,
        Intervals::H12 => 43200,
        Intervals::D1 => 86400,
        Intervals::D3 => 259200,
        Intervals::W1 => 604800,
    }
}

pub open spec fn interval_name(i: Intervals) -> Seq<char> {
    match i {
        Intervals::S1 => "1s"@,
        Intervals::M1 => "1m"@,
        Intervals::M3 => "3m"@,
        Intervals::M5 => "5m"@,
        Intervals::M15 => "15m"@,
        Intervals::M30 => "30m"@,
        Intervals::H1 => "1h"@,
        Intervals::H2 => "2h"@,
        Intervals::H4 => "4h"@,
        Intervals::H6 => "6h"@,
        Intervals::H8 => "8h"@,
        Intervals::H12 => "12h"@,
        Intervals::D1 => "1d"@,
        Intervals::D3 => "3d"@,
        Intervals::W1 => "1w"@,
    }
}

impl Intervals {
    /// The interval in seconds (`M1` is 60).
    pub fn value(&self) -> (r: u32)
        ensures
            r == interval_seconds(*self),
    {
        match self {
            Intervals::S1 => 1,
            Intervals::M1 => 60,
            Intervals::M3 => 180,
            Intervals::M5 => 300,
            Intervals::M15 => 900,
            Intervals::M30 => 1800,
            Intervals::H1 => 3600,
            Intervals::H2 => 7200,
            Intervals::H4 => 14400,
            Intervals::H6 => 21600,
            Intervals::H8 => 28800,
            Intervals::H12 => 43200,
            Intervals::D1 => 86400,
            Intervals::D3 => 259200,
            Intervals::W1 => 604800,
        }
    }

    /// The interval's name: a count and a unit (`H1` is "1h").
    pub fn as_string(&self) -> (r: String)
        ensures
            r@ == interval_name(*self),
    {
        match self {
            Intervals::S1 => "1s".to_owned(),
            Intervals::M1 => "1m".to_owned(),
            Intervals::M3 => "3m".to_owned(),
            Intervals::M5 => "5m".to_owned(),
            Intervals::M15 => "15m".to_owned(),
            Intervals::M30 => "30m".to_owned(),
            Intervals::H1 => "1h".to_owned(),
            Intervals::H2 => "2h".to_owned(),
            Intervals::H4 => "4h".to_owned(),
            Intervals::H6 => "6h".to_owned(),
            Intervals::H8 => "8h".to_owned(),
            Intervals::H12 => "12h".to_owned(),
            Intervals::D1 => "1d".to_owned(),
            Intervals::D3 => "3d".to_owned(),
            Intervals::W1 => "1w".to_owned(),
        }
    }
}

/// The parameters of a request for candles.
///
/// - `base_asset`, `quote_asset`: the two currencies of the pair.
/// - `interval`: the bar interval.
/// - `limit`: how many complete bars are wanted.
/// - `base_url`: the exchange's API host, where not the default one.
/// - `source`: "api" to ask the exchange, "file" to read what was stored; "api" where unset.
#[derive(Clone, Debug)]
pub struct KlineParams<'a> {
    pub base_asset: &'a str,
    pub quote_asset: &'a str,
    pub interval: Intervals,
    pub limit: u16,
    pub base_url: Option<&'a str>,
    pub source: Option<&'a str>,
}

impl<'a> KlineParams<'a> {
    /// The source of the candles: `source`, or "api" where it is unset.
    pub fn get_source(&self) -> (r: &str)
        ensures
            r@ == (match self.source {
                Some(s) => s@,
                None => "api"@,
            }),
    {
        match self.source {
            Some(source) => source,
            None => "api",
        }
    }

    /// The name of the interval (see [`Intervals::as_string`]).
    pub fn get_interval(&self) -> (r: String)
        ensures
            r@ == interval_name(self.interval),
    {
        self.interval.as_string()
    }

    /// How many bars to ask for: one more than `limit`, since the newest bar
    /// is still open and is dropped.
    pub fn request_limit(&self) -> (r: u32)
        ensures
            r == self.limit + 1,
    {
        self.limit as u32 + 1
    }
}

/// The bars that have closed: all but the newest, which is still open.
pub fn complete_bars(klines: Vec<KlinesSubset>) -> (r: Vec<KlinesSubset>)
    ensures
        r@ == if klines@.len() == 0 {
            klines@
        } else {
            klines@.drop_last()
        },
{
    let mut klines = klines;
    if klines.len() > 0 {
        klines.pop();
    }
    klines
}

/// Open and close time, in milliseconds, of a bar stamped `timestamp` seconds
/// that lasts `granularity` seconds: the close is one millisecond before the
/// next bar opens. `None` where a time leaves the range of `u64`.
pub open spec fn spec_bar_times(timestamp: u64, granularity: u32) -> Option<(u64, u64)> {
    let open = timestamp * 1000;
    let close = open + granularity * 1000 - 1;
    if open <= u64::MAX && 0 <= close <= u64::MAX {
        Some((open as u64, close as u64))
    } else {
        None
    }
}

pub open spec fn spec_kline_of(c: Candle, granularity: u32) -> Option<KlinesSubset> {
    match spec_bar_times(c.timestamp, granularity) {
        None => None,
        Some((open, close)) => Some(
            KlinesSubset {
                time_open: open,
                price_open: c.price_open,
                price_low: c.price_low,
                price_high: c.price_high,
                price_close: c.price_close,
                time_close: close,
                volume: c.volume,
            },
        ),
    }
}

/// Candles in time order.
pub open spec fn time_ordered(s: Seq<Candle>) -> bool {
    forall|i: int, j: int| 0 <= i <= j < s.len() ==> (#[trigger] s[i]).timestamp <= (
    #[trigger] s[j]).timestamp
}

/// The bars of the first `n` candles of `s`; `None` where a time leaves the range.
pub open spec fn spec_klines_of(s: Seq<Candle>, granularity: u32, n: nat) -> Option<
    Seq<KlinesSubset>,
>
    decreases n,
{
    if n == 0 {
        Some(Seq::empty())
    } else {
        match (spec_klines_of(s, granularity, (n - 1) as nat), spec_kline_of(s[n - 1], granularity)) {
            (Some(prev), Some(k)) => Some(prev.push(k)),
            _ => None,
        }
    }
}

/// Relies on `slice::sort_by_key`: the candles end up ordered by timestamp, a
/// permutation of what they were.
#[verifier::external_body]
fn sort_by_timestamp(candles: &mut Vec<Candle>)
    ensures
        time_ordered(final(candles)@),
        final(candles)@.to_multiset() == old(candles)@.to_multiset(),
{
    candles.sort_by_key(|c| c.timestamp);
}

fn bar_times(timestamp: u64, granularity: u32) -> (r: Option<(u64, u64)>)
    ensures
        r == spec_bar_times(timestamp, granularity),
{
    match timestamp.checked_mul(1000) {
        None => None,
        Some(open) => match open.checked_add(granularity as u64 * 1000) {
            None => None,
            Some(end) => if end == 0 {
                None
            } else {
                Some((open, end - 1))
            },
        },
    }
}

/// The complete bars of time-ordered `candles` that last `granularity` seconds:
/// the newest candle, still open, is dropped, and times become milliseconds.
pub fn klines_from_ordered(candles: &[Candle], granularity: u32) -> (r: Option<Vec<KlinesSubset>>)
    ensures
        r matches Some(v) ==> Some(v@) == spec_klines_of(
            candles@,
            granularity,
            if candles@.len() == 0 {
                0
            } else {
                (candles@.len() - 1) as nat
            },
        ),
        r is None ==> spec_klines_of(
            candles@,
            granularity,
            if candles@.len() == 0 {
                0
            } else {
                (candles@.len() - 1) as nat
            },
        ) is None,
{
    let n = if candles.len() == 0 {
        0
    } else {
        candles.len() - 1
    };
    let mut out: Vec<KlinesSubset> = Vec::new();
    let mut i: usize = 0;
    while i < n
        invariant
            i <= n,
            n as int == if candles@.len() == 0 {
                0
            } else {
                candles@.len() - 1
            },
            Some(out@) == spec_klines_of(candles@, granularity, i as nat),
        decreases n - i,
    {
        let c = candles[i];
        match bar_times(c.timestamp, granularity) {
            None => {
                proof {
                    assert(spec_kline_of(candles@[i as int], granularity) is None);
                    assert(spec_klines_of(candles@, granularity, (i + 1) as nat) is None);
                    lemma_klines_of_fails(candles@, granularity, (i + 1) as nat, n as nat);
                }
                return None;
            },
            Some((open, close)) => {
                out.push(
                    KlinesSubset {
                        time_open: open,
                        price_open: c.price_open,
                        price_low: c.price_low,
                        price_high: c.price_high,
                        price_close: c.price_close,
                        time_close: close,
                        volume: c.volume,
                    },
                );
            },
        }
        i = i + 1;
    }
    Some(out)
}

proof fn lemma_klines_of_fails(s: Seq<Candle>, granularity: u32, i: nat, n: nat)
    requires
        i <= n,
        spec_klines_of(s, granularity, i) is None,
    ensures
        spec_klines_of(s, granularity, n) is None,
    decreases n - i,
{
    if i < n {
        lemma_klines_of_fails(s, granularity, i, (n - 1) as nat);
    }
}

/// The complete bars of `candles`, in any order, that last `granularity`
/// seconds: they are put in time order, the newest, still open, is dropped,
/// and times become milliseconds.
pub fn klines_from_candles(candles: Vec<Candle>, granularity: u32) -> (r: Option<Vec<KlinesSubset>>)
    ensures
        exists|s: Seq<Candle>|
            {
                &&& time_ordered(s)
                &&& s.to_multiset() == candles@.to_multiset()
                &&& s.len() == candles@.len()
                &&& (r matches Some(v) ==> Some(v@) == spec_klines_of(
                    s,
                    granularity,
                    if s.len() == 0 {
                        0
                    } else {
                        (s.len() - 1) as nat
                    },
                ))
                &&& (r is None ==> spec_klines_of(
                    s,
                    granularity,
                    if s.len() == 0 {
                        0
                    } else {
                        (s.len() - 1) as nat
                    },
                ) is None)
            },
{
    let mut sorted = candles;
    sort_by_timestamp(&mut sorted);
    proof {
        sorted@.to_multiset_ensures();
        candles@.to_multiset_ensures();
    }
    klines_from_ordered(sorted.as_slice(), granularity)
}

} // verus!
