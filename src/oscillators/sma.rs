//! Simple moving average over a series whose values may be undefined.
use crate::decimal::quot_tz;
use vstd::prelude::*;

verus! {

/// The fixed-point unit of oscillator values: `SIGNAL_ONE` stands for 1.
pub const SIGNAL_ONE: i128 = 10_000_000_000;

/// Oscillator values stay within this magnitude (2^105), so that sums over a
/// window of up to `u16::MAX` values fit in an `i128`.
pub const SIGNAL_BOUND: i128 = 40564819207303340847894502572032;

pub open spec fn bounded(v: Option<i128>) -> bool {
    v matches Some(x) ==> -SIGNAL_BOUND <= x <= SIGNAL_BOUND
}

pub open spec fn all_bounded(data: Seq<Option<i128>>) -> bool {
    forall|i: int| 0 <= i < data.len() ==> bounded(#[trigger] data[i])
}

pub open spec fn value_of(v: Option<i128>) -> int {
    match v {
        Some(x) => x as int,
        None => 0,
    }
}

/// The sum of `data[lo..hi]`.
pub open spec fn window_sum(data: Seq<Option<i128>>, lo: int, hi: int) -> int
    decreases hi - lo,
{
    if hi <= lo {
        0
    } else {
        window_sum(data, lo, hi - 1) + value_of(data[hi - 1])
    }
}

/// Every value of `data[lo..hi]` is defined.
pub open spec fn window_defined(data: Seq<Option<i128>>, lo: int, hi: int) -> bool {
    forall|j: int| lo <= j < hi ==> (#[trigger] data[j]) is Some
}

/// The mean of `data[index + 1 - period ..= index]`, cut toward zero to the
/// fixed-point unit; undefined before the window is full and where a value in
/// it is undefined.
pub open spec fn spec_sma(data: Seq<Option<i128>>, index: int, period: int) -> Option<i128> {
    if index < period - 1 || !window_defined(data, index + 1 - period, index + 1) {
        None
    } else {
        Some(quot_tz(window_sum(data, index + 1 - period, index + 1), period) as i128)
    }
}

proof fn lemma_window_sum_bound(data: Seq<Option<i128>>, lo: int, hi: int)
    requires
        0 <= lo <= hi <= data.len(),
        all_bounded(data),
    ensures
        -(hi - lo) * SIGNAL_BOUND <= window_sum(data, lo, hi) <= (hi - lo) * SIGNAL_BOUND,
    decreases hi - lo,
{
    if lo < hi {
        lemma_window_sum_bound(data, lo, hi - 1);
        assert(bounded(data[hi - 1]));
    }
}

proof fn lemma_mean_bound(sum: int, period: int)
    requires
        period >= 1,
        -period * SIGNAL_BOUND <= sum <= period * SIGNAL_BOUND,
    ensures
        -SIGNAL_BOUND <= quot_tz(sum, period) <= SIGNAL_BOUND,
{
    if sum > 0 {
        vstd::arithmetic::div_mod::lemma_div_is_ordered(sum, period * SIGNAL_BOUND, period);
        vstd::arithmetic::div_mod::lemma_div_by_multiple(SIGNAL_BOUND as int, period);
        vstd::arithmetic::div_mod::lemma_div_pos_is_pos(sum, period);
        assert(SIGNAL_BOUND * period == period * SIGNAL_BOUND) by (nonlinear_arith);
    } else if sum < 0 {
        vstd::arithmetic::div_mod::lemma_div_is_ordered(-sum, period * SIGNAL_BOUND, period);
        vstd::arithmetic::div_mod::lemma_div_by_multiple(SIGNAL_BOUND as int, period);
        vstd::arithmetic::div_mod::lemma_div_pos_is_pos(-sum, period);
        assert(SIGNAL_BOUND * period == period * SIGNAL_BOUND) by (nonlinear_arith);
    }
}

/// The simple moving average at `index`: the mean of the `period` values
/// ending there, or undefined where the window is not full or holds an
/// undefined value.
pub fn sma_for_tick(data: &[Option<i128>], index: usize, period: usize) -> (r: Option<i128>)
    requires
        index < data@.len(),
        1 <= period <= u16::MAX,
        all_bounded(data@),
    ensures
        r == spec_sma(data@, index as int, period as int),
        bounded(r),
        (index as int) < period - 1 ==> r is None,
{
    if index < period - 1 {
        return None;
    }
    let lo = index - (period - 1);
    let mut sum: i128 = 0;
    let mut j = lo;
    while j <= index
        invariant
            lo <= j <= index + 1,
            index < data@.len(),
            lo == index + 1 - period,
            1 <= period <= u16::MAX,
            all_bounded(data@),
            window_defined(data@, lo as int, j as int),
            sum == window_sum(data@, lo as int, j as int),
        decreases index + 1 - j,
    {
        match data[j] {
            None => {
                assert(!window_defined(data@, lo as int, index + 1));
                return None;
            },
            Some(v) => {
                proof {
                    lemma_window_sum_bound(data@, lo as int, j as int);
                    assert(bounded(data@[j as int]));
                    assert((j - lo) * SIGNAL_BOUND + SIGNAL_BOUND <= u16::MAX * SIGNAL_BOUND)
                        by (nonlinear_arith)
                        requires
                            j - lo < period,
                            period <= u16::MAX,
                    ;
                }
                sum = sum + v;
            },
        }
        j = j + 1;
    }
    proof {
        lemma_window_sum_bound(data@, lo as int, index + 1);
        lemma_mean_bound(sum as int, period as int);
    }
    Some(sum / (period as i128))
}

/// [`sma_for_tick`] at every index of `data`.
pub fn sma_for_ticks(data: &[Option<i128>], period: usize) -> (r: Vec<Option<i128>>)
    requires
        1 <= period <= u16::MAX,
        all_bounded(data@),
    ensures
        r@.len() == data@.len(),
        forall|i: int| 0 <= i < r@.len() ==> #[trigger] r@[i] == spec_sma(data@, i, period as int),
        forall|i: int| 0 <= i < r@.len() && i < period - 1 ==> #[trigger] r@[i] is None,
        all_bounded(r@),
{
    let mut res: Vec<Option<i128>> = Vec::new();
    let mut ix: usize = 0;
    while ix < data.len()
        invariant
            ix <= data@.len(),
            res@.len() == ix,
            1 <= period <= u16::MAX,
            all_bounded(data@),
            forall|i: int| 0 <= i < ix ==> #[trigger] res@[i] == spec_sma(data@, i, period as int),
            all_bounded(res@),
        decreases data@.len() - ix,
    {
        let v = sma_for_tick(data, ix, period);
        res.push(v);
        ix = ix + 1;
    }
    res
}

} // verus!
