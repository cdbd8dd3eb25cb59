//! The stochastic oscillator: the raw value %K, its smoothing (the fast line)
//! and the smoothing of that (the slow line, %D).
use crate::decimal::{lemma_quot_tz_magnitude, quot_tz};
use crate::oscillators::models::Hlc;
use crate::oscillators::sma::{
    all_bounded, bounded, sma_for_tick, sma_for_ticks, spec_sma, SIGNAL_BOUND, SIGNAL_ONE,
};
use vstd::prelude::*;

verus! {

/// The lowest low of `s[lo..hi]` (`lo < hi`).
pub open spec fn window_low(s: Seq<Hlc>, lo: int, hi: int) -> int
    decreases hi - lo,
{
    if hi - lo <= 1 {
        s[lo].price_low as int
    } else {
        let m = window_low(s, lo, hi - 1);
        if s[hi - 1].price_low < m {
            s[hi - 1].price_low as int
        } else {
            m
        }
    }
}

/// The highest high of `s[lo..hi]` (`lo < hi`).
pub open spec fn window_high(s: Seq<Hlc>, lo: int, hi: int) -> int
    decreases hi - lo,
{
    if hi - lo <= 1 {
        s[lo].price_high as int
    } else {
        let m = window_high(s, lo, hi - 1);
        if s[hi - 1].price_high > m {
            s[hi - 1].price_high as int
        } else {
            m
        }
    }
}

/// %K at `index`: `100 * (close - lowest low) / (highest high - lowest low)`
/// over the `k_length` ticks ending there, cut toward zero to the fixed-point
/// unit; undefined before the window is full and where its range is zero.
pub open spec fn spec_k(s: Seq<Hlc>, index: int, k_length: int) -> Option<i128> {
    if index < k_length - 1 {
        None
    } else {
        let lo = window_low(s, index + 1 - k_length, index + 1);
        let hi = window_high(s, index + 1 - k_length, index + 1);
        if hi - lo == 0 {
            None
        } else {
            Some(
                quot_tz(100 * SIGNAL_ONE * (s[index].price_close - lo), hi - lo) as i128,
            )
        }
    }
}

pub open spec fn spec_k_line_raw(s: Seq<Hlc>, k_length: int) -> Seq<Option<i128>> {
    Seq::new(s.len(), |i: int| spec_k(s, i, k_length))
}

/// The fast line: %K smoothed over `k_smoothing` ticks.
pub open spec fn spec_k_line(s: Seq<Hlc>, k_length: int, k_smoothing: int) -> Seq<Option<i128>> {
    Seq::new(s.len(), |i: int| spec_sma(spec_k_line_raw(s, k_length), i, k_smoothing))
}

/// The slow line: the fast line smoothed over `d_length` ticks.
pub open spec fn spec_d_line(
    s: Seq<Hlc>,
    k_length: int,
    k_smoothing: int,
    d_length: int,
) -> Seq<Option<i128>> {
    Seq::new(s.len(), |i: int| spec_sma(spec_k_line(s, k_length, k_smoothing), i, d_length))
}

proof fn lemma_window_bounds(s: Seq<Hlc>, lo: int, hi: int)
    requires
        0 <= lo < hi <= s.len(),
    ensures
        forall|j: int| lo <= j < hi ==> window_low(s, lo, hi) <= (#[trigger] s[j]).price_low,
        forall|j: int| lo <= j < hi ==> window_high(s, lo, hi) >= (#[trigger] s[j]).price_high,
        i64::MIN <= window_low(s, lo, hi) <= i64::MAX,
        i64::MIN <= window_high(s, lo, hi) <= i64::MAX,
    decreases hi - lo,
{
    if hi - lo > 1 {
        lemma_window_bounds(s, lo, hi - 1);
    }
}

/// A candle whose close lies between its low and its high.
pub open spec fn valid_candle(h: Hlc) -> bool {
    h.price_low <= h.price_close <= h.price_high
}

/// High, low and close each rise strictly from one tick to the next.
pub open spec fn strictly_increasing(s: Seq<Hlc>) -> bool {
    forall|j: int|
        0 <= j < s.len() - 1 ==> (#[trigger] s[j]).price_high < s[j + 1].price_high
            && s[j].price_low < s[j + 1].price_low && s[j].price_close < s[j + 1].price_close
}

/// On a strictly increasing series of valid candles, %K is defined once the
/// window is full and lies between 0 and 100, for any window of two ticks or
/// more. (With a window of one tick whose high equals its low, it is undefined.)
pub proof fn lemma_k_in_range(s: Seq<Hlc>, index: int, k_length: int)
    requires
        2 <= k_length,
        k_length - 1 <= index < s.len(),
        forall|j: int| 0 <= j < s.len() ==> valid_candle(#[trigger] s[j]),
        strictly_increasing(s),
    ensures
        spec_k(s, index, k_length) matches Some(k) && 0 <= k <= 100 * SIGNAL_ONE,
{
    let lo_ix = index + 1 - k_length;
    lemma_window_bounds(s, lo_ix, index + 1);
    let lo = window_low(s, lo_ix, index + 1);
    let hi = window_high(s, lo_ix, index + 1);
    assert(valid_candle(s[index]));
    assert(valid_candle(s[index - 1]));
    assert(s[index - 1].price_high < s[index].price_high);
    assert(lo <= s[index - 1].price_low);
    let num = 100 * SIGNAL_ONE * (s[index].price_close - lo);
    let den = hi - lo;
    assert(den > 0);
    let c = s[index].price_close - lo;
    assert(0 <= c <= den);
    assert(0 <= num <= 100 * SIGNAL_ONE * den) by (nonlinear_arith)
        requires
            num == 100 * SIGNAL_ONE * c,
            0 <= c <= den,
    ;
    vstd::arithmetic::div_mod::lemma_div_is_ordered(num, 100 * SIGNAL_ONE * den, den);
    vstd::arithmetic::div_mod::lemma_div_by_multiple(100 * SIGNAL_ONE as int, den);
    vstd::arithmetic::div_mod::lemma_div_pos_is_pos(num, den);
    assert(100 * SIGNAL_ONE * den == (100 * SIGNAL_ONE) * den);
}

proof fn lemma_flat_window(s: Seq<Hlc>, lo: int, hi: int, v: int)
    requires
        0 <= lo < hi <= s.len(),
        forall|j: int| lo <= j < hi ==> (#[trigger] s[j]).price_high == v && s[j].price_low == v,
    ensures
        window_low(s, lo, hi) == v,
        window_high(s, lo, hi) == v,
    decreases hi - lo,
{
    if hi - lo > 1 {
        lemma_flat_window(s, lo, hi - 1, v);
        assert(s[hi - 1].price_high == v);
    } else {
        assert(s[lo].price_high == v);
    }
}

/// Where every high and every low in the window is one and the same price, %K
/// is undefined: there is no division by a zero range.
pub proof fn lemma_k_flat(s: Seq<Hlc>, index: int, k_length: int, v: int)
    requires
        1 <= k_length,
        0 <= index < s.len(),
        forall|j: int|
            index + 1 - k_length <= j <= index && 0 <= j ==> (#[trigger] s[j]).price_high == v
                && s[j].price_low == v,
    ensures
        spec_k(s, index, k_length) is None,
{
    if index >= k_length - 1 {
        lemma_flat_window(s, index + 1 - k_length, index + 1, v);
    }
}

/// The raw stochastic value %K at `index` over the `k_length` ticks ending there.
pub fn k_for_tick(price_data: &[Hlc], index: usize, k_length: u16) -> (r: Option<i128>)
    requires
        index < price_data@.len(),
        k_length >= 1,
    ensures
        r == spec_k(price_data@, index as int, k_length as int),
        bounded(r),
{
    let k = k_length as usize;
    if index < k - 1 {
        return None;
    }
    let lo = index - (k - 1);
    let mut low: i64 = price_data[lo].price_low;
    let mut high: i64 = price_data[lo].price_high;
    let mut j = lo + 1;
    while j <= index
        invariant
            lo < j <= index + 1,
            index < price_data@.len(),
            low == window_low(price_data@, lo as int, j as int),
            high == window_high(price_data@, lo as int, j as int),
        decreases index + 1 - j,
    {
        let p = price_data[j];
        if p.price_low < low {
            low = p.price_low;
        }
        if p.price_high > high {
            high = p.price_high;
        }
        j = j + 1;
    }
    let range = (high as i128) - (low as i128);
    if range == 0 {
        return None;
    }
    let num = ((price_data[index].price_close as i128) - (low as i128)) * (100 * SIGNAL_ONE);
    proof {
        lemma_quot_tz_magnitude(num as int, range as int);
        assert(100 * SIGNAL_ONE * (price_data@[index as int].price_close - low) == num);
    }
    match num.checked_div(range) {
        Some(q) => Some(q),
        None => None,
    }
}

/// [`k_for_tick`] at every index of `price_data`.
pub fn k_for_ticks(price_data: &[Hlc], k_length: u16) -> (r: Vec<Option<i128>>)
    requires
        k_length >= 1,
    ensures
        r@ == spec_k_line_raw(price_data@, k_length as int),
        all_bounded(r@),
{
    let mut res: Vec<Option<i128>> = Vec::new();
    let mut i: usize = 0;
    while i < price_data.len()
        invariant
            i <= price_data@.len(),
            res@.len() == i,
            k_length >= 1,
            forall|j: int| 0 <= j < i ==> #[trigger] res@[j] == spec_k(price_data@, j, k_length as int),
            all_bounded(res@),
        decreases price_data@.len() - i,
    {
        let v = k_for_tick(price_data, i, k_length);
        res.push(v);
        i = i + 1;
    }
    assert(res@ =~= spec_k_line_raw(price_data@, k_length as int));
    res
}

/// %D at `index`: the mean of the `d_length` values of `k_values` ending there.
pub fn d_for_tick(k_values: &[Option<i128>], index: usize, d_length: u16) -> (r: Option<i128>)
    requires
        index < k_values@.len(),
        d_length >= 1,
        all_bounded(k_values@),
    ensures
        r == spec_sma(k_values@, index as int, d_length as int),
        bounded(r),
{
    if index < d_length as usize - 1 {
        None
    } else {
        sma_for_tick(k_values, index, d_length as usize)
    }
}

/// [`d_for_tick`] at every index of `k_values`.
pub fn d_for_ticks(k_values: &[Option<i128>], d_length: u16) -> (r: Vec<Option<i128>>)
    requires
        d_length >= 1,
        all_bounded(k_values@),
    ensures
        r@.len() == k_values@.len(),
        forall|i: int|
            0 <= i < r@.len() ==> #[trigger] r@[i] == spec_sma(k_values@, i, d_length as int),
        all_bounded(r@),
{
    let mut res: Vec<Option<i128>> = Vec::new();
    let mut i: usize = 0;
    while i < k_values.len()
        invariant
            i <= k_values@.len(),
            res@.len() == i,
            d_length >= 1,
            all_bounded(k_values@),
            forall|j: int|
                0 <= j < i ==> #[trigger] res@[j] == spec_sma(k_values@, j, d_length as int),
            all_bounded(res@),
        decreases k_values@.len() - i,
    {
        let v = d_for_tick(k_values, i, d_length);
        res.push(v);
        i = i + 1;
    }
    res
}

/// The fast and the slow line at one tick.
#[derive(Clone, Copy, Debug, PartialEq, Eq, Structural)]
pub struct StochValues {
    pub k_line: Option<i128>,
    pub d_line: Option<i128>,
}

/// The stochastic oscillator over `price_data`: at each tick the fast line (%K
/// smoothed over `k_smoothing` ticks) and the slow line (the fast line smoothed
/// over `d_smoothing` ticks).
pub fn stochastic(price_data: &[Hlc], k_length: u16, k_smoothing: u16, d_smoothing: u16) -> (r:
    Vec<StochValues>)
    requires
        k_length >= 1,
        k_smoothing >= 1,
        d_smoothing >= 1,
    ensures
        r@.len() == price_data@.len(),
        forall|i: int|
            0 <= i < r@.len() ==> (#[trigger] r@[i]).k_line == spec_k_line(
                price_data@,
                k_length as int,
                k_smoothing as int,
            )[i] && r@[i].d_line == spec_d_line(
                price_data@,
                k_length as int,
                k_smoothing as int,
                d_smoothing as int,
            )[i],
{
    let k_line_raw = k_for_ticks(price_data, k_length);
    let k_line = sma_for_ticks(k_line_raw.as_slice(), k_smoothing as usize);
    assert(k_line@ =~= spec_k_line(price_data@, k_length as int, k_smoothing as int));
    let d_line = d_for_ticks(k_line.as_slice(), d_smoothing);
    let mut res: Vec<StochValues> = Vec::new();
    let mut i: usize = 0;
    while i < k_line.len()
        invariant
            i <= k_line@.len(),
            k_line@.len() == price_data@.len(),
            d_line@.len() == price_data@.len(),
            res@.len() == i,
            k_line@ == spec_k_line(price_data@, k_length as int, k_smoothing as int),
            forall|j: int|
                0 <= j < d_line@.len() ==> #[trigger] d_line@[j] == spec_sma(
                    k_line@,
                    j,
                    d_smoothing as int,
                ),
            forall|j: int|
                0 <= j < i ==> (#[trigger] res@[j]).k_line == k_line@[j] && res@[j].d_line
                    == d_line@[j],
        decreases k_line@.len() - i,
    {
        res.push(StochValues { k_line: k_line[i], d_line: d_line[i] });
        i = i + 1;
    }
    res
}

} // verus!
