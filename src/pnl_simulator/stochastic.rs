//! The stochastic oscillator as a trading signal: one backtest for one point of
//! its parameters, and the search over a grid of them.
use crate::decimal::Dec;
use crate::exchange::chart_data::KlinesSubset;
use crate::oscillators::models::Hlc;
use crate::oscillators::stochastic::{spec_d_line, spec_k_line, stochastic};
use crate::pnl_simulator::models::{PnL, TriggerSignal};
use crate::pnl_simulator::pnl::{simulate, spec_simulate, SimModel, SimulateParams, SimulationError};
use crate::pnl_simulator::ranking::{
    rank_seq, Entry, PnlParams, Profit, TopProfits, CAPACITY, sorted_desc,
};
use vstd::prelude::*;

verus! {

/// An inclusive range of one parameter.
#[derive(Clone, Copy, Debug, PartialEq, Eq, Structural)]
pub struct ParamRange {
    pub start: u16,
    pub end: u16,
}

/// The grid of parameters to search: every combination of the three ranges.
#[derive(Clone, Copy, Debug, PartialEq, Eq, Structural)]
pub struct PnlRange {
    pub k_length: ParamRange,
    pub k_smoothing: ParamRange,
    pub d_length: ParamRange,
}

/// A backtest context: a candle series and the simulation settings.
///
/// - `exchange`: the name of the exchange the candles come from.
/// - `klines`: the candles, prices in units of `10^(-price_scale)`.
/// - `lhc`: high, low and close of each candle.
/// - `capital`, `exchange_fee`, `min_qty`, `min_price`, `asset_scale`,
///   `funds_scale`: as in [`SimulateParams`].
/// - `pnl_fast`: kept for callers; every backtest runs the exact simulation.
pub struct Stochastic {
    pub exchange: String,
    pub klines: Vec<KlinesSubset>,
    pub lhc: Vec<Hlc>,
    pub price_scale: u32,
    pub capital: Dec,
    pub exchange_fee: Option<Dec>,
    pub min_qty: Option<Dec>,
    pub min_price: Option<Dec>,
    pub asset_scale: u32,
    pub funds_scale: u32,
    pub pnl_fast: bool,
}

pub open spec fn hlc_of(k: KlinesSubset) -> Hlc {
    Hlc { price_high: k.price_high, price_low: k.price_low, price_close: k.price_close }
}

/// The signal record of candle `k` with the two oscillator lines.
pub open spec fn trigger_of(k: KlinesSubset, scale: u32, k_val: i128, d_val: i128) -> TriggerSignal {
    TriggerSignal {
        signal_in: k_val,
        signal_out: d_val,
        time_open: k.time_open,
        time_close: k.time_close,
        price_open: Dec { mantissa: k.price_open as i128, scale },
        price_close: Dec { mantissa: k.price_close as i128, scale },
    }
}

/// The signals of the first `n` candles: those where both lines are defined.
pub open spec fn spec_triggers(
    k_line: Seq<Option<i128>>,
    d_line: Seq<Option<i128>>,
    klines: Seq<KlinesSubset>,
    scale: u32,
    n: nat,
) -> Seq<TriggerSignal>
    decreases n,
{
    if n == 0 {
        Seq::empty()
    } else {
        let prev = spec_triggers(k_line, d_line, klines, scale, (n - 1) as nat);
        let i = n - 1;
        match (k_line[i], d_line[i]) {
            (Some(kv), Some(dv)) => prev.push(trigger_of(klines[i], scale, kv, dv)),
            _ => prev,
        }
    }
}

/// The ranked entry of a backtest at `p`, where it succeeds.
pub open spec fn entry_of(st: &Stochastic, p: PnlParams) -> Seq<Entry> {
    match st.spec_pnl(p) {
        Ok(r) => seq![(Profit(r.net_profit), p)],
        Err(_) => Seq::empty(),
    }
}

/// The entries for `d_length` in `[d_lo, d_hi)` at fixed `k_length` and `k_smoothing`.
pub open spec fn entries_d(st: &Stochastic, k: u16, s: u16, d_lo: int, d_hi: int) -> Seq<Entry>
    decreases d_hi - d_lo,
{
    if d_hi <= d_lo {
        Seq::empty()
    } else {
        entries_d(st, k, s, d_lo, d_hi - 1) + entry_of(
            st,
            PnlParams { k_length: k, k_smoothing: s, d_length: (d_hi - 1) as u16 },
        )
    }
}

/// The entries for `k_smoothing` in `[s_lo, s_hi)` at fixed `k_length`.
pub open spec fn entries_s(
    st: &Stochastic,
    k: u16,
    s_lo: int,
    s_hi: int,
    d_lo: int,
    d_hi: int,
) -> Seq<Entry>
    decreases s_hi - s_lo,
{
    if s_hi <= s_lo {
        Seq::empty()
    } else {
        entries_s(st, k, s_lo, s_hi - 1, d_lo, d_hi) + entries_d(st, k, (s_hi - 1) as u16, d_lo, d_hi)
    }
}

/// The entries for `k_length` in `[k_lo, k_hi)`.
pub open spec fn entries_k(
    st: &Stochastic,
    k_lo: int,
    k_hi: int,
    s_lo: int,
    s_hi: int,
    d_lo: int,
    d_hi: int,
) -> Seq<Entry>
    decreases k_hi - k_lo,
{
    if k_hi <= k_lo {
        Seq::empty()
    } else {
        entries_k(st, k_lo, k_hi - 1, s_lo, s_hi, d_lo, d_hi) + entries_s(
            st,
            (k_hi - 1) as u16,
            s_lo,
            s_hi,
            d_lo,
            d_hi,
        )
    }
}

/// The entries of the whole grid, `k_length` outermost and `d_length` innermost.
pub open spec fn grid_entries(st: &Stochastic, range: PnlRange) -> Seq<Entry> {
    entries_k(
        st,
        range.k_length.start as int,
        range.k_length.end + 1,
        range.k_smoothing.start as int,
        range.k_smoothing.end + 1,
        range.d_length.start as int,
        range.d_length.end + 1,
    )
}

proof fn lemma_rank_seq_concat(start: Seq<Entry>, a: Seq<Entry>, b: Seq<Entry>)
    ensures
        rank_seq(start, a + b) == rank_seq(rank_seq(start, a), b),
    decreases b.len(),
{
    if b.len() == 0 {
        assert(a + b =~= a);
    } else {
        lemma_rank_seq_concat(start, a, b.drop_last());
        assert((a + b).drop_last() =~= a + b.drop_last());
        assert((a + b).last() == b.last());
    }
}

impl Stochastic {
    /// `lhc` holds the prices of `klines`, candle by candle.
    pub open spec fn wf(&self) -> bool {
        &&& self.lhc@.len() == self.klines@.len()
        &&& forall|i: int| 0 <= i < self.klines@.len() ==> #[trigger] self.lhc@[i] == hlc_of(self.klines@[i])
    }

    /// The simulation parameters of a backtest at `p`.
    pub open spec fn spec_model(&self, p: PnlParams) -> SimModel {
        let n = self.lhc@.len();
        let k = spec_k_line(self.lhc@, p.k_length as int, p.k_smoothing as int);
        let d = spec_d_line(self.lhc@, p.k_length as int, p.k_smoothing as int, p.d_length as int);
        SimModel {
            signals: spec_triggers(k, d, self.klines@, self.price_scale, n),
            initial_capital: self.capital,
            exchange_fee: self.exchange_fee,
            min_qty: self.min_qty,
            min_price: self.min_price,
            asset_scale: self.asset_scale,
            funds_scale: self.funds_scale,
        }
    }

    /// The outcome of a backtest at `p`.
    pub open spec fn spec_pnl(&self, p: PnlParams) -> Result<PnL, SimulationError> {
        spec_simulate(self.spec_model(p))
    }

    /// A context over `klines`, whose prices are in units of
    /// `10^(-price_scale)`, with capital 1000, no fee, no trade constraints and
    /// 8 decimal places for asset and funds.
    pub fn new(exchange: String, klines: Vec<KlinesSubset>, price_scale: u32) -> (r: Self)
        ensures
            r.wf(),
            r.exchange@ == exchange@,
            r.klines@ == klines@,
            r.price_scale == price_scale,
            r.capital == (Dec { mantissa: 1000, scale: 0 }),
            r.exchange_fee is None,
            r.min_qty is None,
            r.min_price is None,
            r.asset_scale == 8,
            r.funds_scale == 8,
            !r.pnl_fast,
    {
        let mut lhc: Vec<Hlc> = Vec::new();
        let mut i: usize = 0;
        while i < klines.len()
            invariant
                i <= klines@.len(),
                lhc@.len() == i,
                forall|j: int| 0 <= j < i ==> #[trigger] lhc@[j] == hlc_of(klines@[j]),
            decreases klines@.len() - i,
        {
            let k = &klines[i];
            lhc.push(Hlc { price_high: k.price_high, price_low: k.price_low, price_close: k.price_close });
            i = i + 1;
        }
        Stochastic {
            exchange,
            klines,
            lhc,
            price_scale,
            capital: Dec { mantissa: 1000, scale: 0 },
            exchange_fee: None,
            min_qty: None,
            min_price: None,
            asset_scale: 8,
            funds_scale: 8,
            pnl_fast: false,
        }
    }

    /// The same context with `capital` set.
    pub fn capital(self, capital: Dec) -> (r: Self)
        ensures
            r.capital == capital,
            r.klines@ == self.klines@ && r.lhc@ == self.lhc@ && r.price_scale == self.price_scale,
            r.exchange_fee == self.exchange_fee && r.min_qty == self.min_qty && r.min_price
                == self.min_price,
            r.asset_scale == self.asset_scale && r.funds_scale == self.funds_scale,
    {
        Stochastic { capital, ..self }
    }

    /// The same context with a fee rate.
    pub fn exchange_fee(self, exchange_fee: Dec) -> (r: Self)
        ensures
            r.exchange_fee == Some(exchange_fee),
            r.klines@ == self.klines@ && r.lhc@ == self.lhc@ && r.price_scale == self.price_scale,
            r.capital == self.capital && r.min_qty == self.min_qty && r.min_price == self.min_price,
            r.asset_scale == self.asset_scale && r.funds_scale == self.funds_scale,
    {
        Stochastic { exchange_fee: Some(exchange_fee), ..self }
    }

    /// The same context with a quantity increment.
    pub fn min_qty(self, min_qty: Dec) -> (r: Self)
        ensures
            r.min_qty == Some(min_qty),
            r.klines@ == self.klines@ && r.lhc@ == self.lhc@ && r.price_scale == self.price_scale,
            r.capital == self.capital && r.exchange_fee == self.exchange_fee && r.min_price
                == self.min_price,
            r.asset_scale == self.asset_scale && r.funds_scale == self.funds_scale,
    {
        Stochastic { min_qty: Some(min_qty), ..self }
    }

    /// The same context with a price increment.
    pub fn min_price(self, min_price: Dec) -> (r: Self)
        ensures
            r.min_price == Some(min_price),
            r.klines@ == self.klines@ && r.lhc@ == self.lhc@ && r.price_scale == self.price_scale,
            r.capital == self.capital && r.exchange_fee == self.exchange_fee && r.min_qty
                == self.min_qty,
            r.asset_scale == self.asset_scale && r.funds_scale == self.funds_scale,
    {
        Stochastic { min_price: Some(min_price), ..self }
    }

    /// The same context with `asset_scale` set.
    pub fn asset_scale(self, asset_scale: u32) -> (r: Self)
        ensures
            r.asset_scale == asset_scale,
            r.klines@ == self.klines@ && r.lhc@ == self.lhc@ && r.price_scale == self.price_scale,
            r.capital == self.capital && r.exchange_fee == self.exchange_fee && r.min_qty
                == self.min_qty && r.min_price == self.min_price,
            r.funds_scale == self.funds_scale,
    {
        Stochastic { asset_scale, ..self }
    }

    /// The same context with `funds_scale` set.
    pub fn funds_scale(self, funds_scale: u32) -> (r: Self)
        ensures
            r.funds_scale == funds_scale,
            r.klines@ == self.klines@ && r.lhc@ == self.lhc@ && r.price_scale == self.price_scale,
            r.capital == self.capital && r.exchange_fee == self.exchange_fee && r.min_qty
                == self.min_qty && r.min_price == self.min_price,
            r.asset_scale == self.asset_scale,
    {
        Stochastic { funds_scale, ..self }
    }

    /// The same context with `pnl_fast` set.
    pub fn pnl_fast(self, pnl_fast: bool) -> (r: Self)
        ensures
            r.pnl_fast == pnl_fast,
            r.klines@ == self.klines@ && r.lhc@ == self.lhc@ && r.price_scale == self.price_scale,
            r.capital == self.capital && r.exchange_fee == self.exchange_fee && r.min_qty
                == self.min_qty && r.min_price == self.min_price,
            r.asset_scale == self.asset_scale && r.funds_scale == self.funds_scale,
    {
        Stochastic { pnl_fast, ..self }
    }

    /// Enters the backtest at `p` into `top`, where it succeeds.
    pub fn rank_point(&self, p: PnlParams, top: &mut TopProfits)
        requires
            self.wf(),
            p.k_length >= 1 && p.k_smoothing >= 1 && p.d_length >= 1,
            old(top).wf(),
        ensures
            final(top).wf(),
            final(top)@ == rank_seq(old(top)@, entry_of(self, p)),
    {
        let ghost start = top@;
        match self.pnl(p) {
            Ok(r) => {
                let e = (Profit(r.net_profit), p);
                top.insert(e);
                assert(seq![e].drop_last() =~= Seq::<Entry>::empty());
                assert(rank_seq(start, Seq::<Entry>::empty()) == start);
                assert(seq![e].last() == e);
            },
            Err(_) => {
                assert(rank_seq(start, Seq::<Entry>::empty()) == start);
            },
        }
    }

    /// The best [`CAPACITY`] grid points by net profit, highest ranked first:
    /// every combination of the three ranges is backtested, and those whose
    /// backtest succeeds are ranked by net profit, ties broken by parameters.
    pub fn top_net_profit(&self, pnl_range: PnlRange) -> (r: Vec<Entry>)
        requires
            self.wf(),
            pnl_range.k_length.start >= 1,
            pnl_range.k_smoothing.start >= 1,
            pnl_range.d_length.start >= 1,
        ensures
            r@ == rank_seq(Seq::empty(), grid_entries(self, pnl_range)),
            r@.len() <= CAPACITY,
            sorted_desc(r@),
    {
        let k_lo = pnl_range.k_length.start as u32;
        let s_lo = pnl_range.k_smoothing.start as u32;
        let d_lo = pnl_range.d_length.start as u32;
        let k_hi = pnl_range.k_length.end as u32 + 1;
        let s_hi = pnl_range.k_smoothing.end as u32 + 1;
        let d_hi = pnl_range.d_length.end as u32 + 1;
        let mut top = TopProfits::new();
        let mut k = k_lo;
        while k < k_hi
            invariant
                self.wf(),
                k_lo >= 1 && s_lo >= 1 && d_lo >= 1,
                k_hi <= 65536 && s_hi <= 65536 && d_hi <= 65536,
                k_lo <= k,
                k <= k_hi || k == k_lo,
                top.wf(),
                top@ == rank_seq(
                    Seq::empty(),
                    entries_k(self, k_lo as int, k as int, s_lo as int, s_hi as int, d_lo as int, d_hi as int),
                ),
            decreases k_hi - k,
        {
            let ghost before = entries_k(self, k_lo as int, k as int, s_lo as int, s_hi as int, d_lo as int, d_hi as int);
            let mut s = s_lo;
            while s < s_hi
                invariant
                    self.wf(),
                    k_lo >= 1 && s_lo >= 1 && d_lo >= 1,
                    1 <= k < 65536,
                    s_hi <= 65536 && d_hi <= 65536,
                    s_lo <= s,
                    s <= s_hi || s == s_lo,
                    top.wf(),
                    top@ == rank_seq(
                        Seq::empty(),
                        before + entries_s(self, k as u16, s_lo as int, s as int, d_lo as int, d_hi as int),
                    ),
                decreases s_hi - s,
            {
                let ghost before_s = before + entries_s(self, k as u16, s_lo as int, s as int, d_lo as int, d_hi as int);
                let mut d = d_lo;
                while d < d_hi
                    invariant
                        self.wf(),
                        d_lo >= 1,
                        1 <= k < 65536,
                        1 <= s < 65536,
                        d_hi <= 65536,
                        d_lo <= d,
                        d <= d_hi || d == d_lo,
                        top.wf(),
                        top@ == rank_seq(
                            Seq::empty(),
                            before_s + entries_d(self, k as u16, s as u16, d_lo as int, d as int),
                        ),
                    decreases d_hi - d,
                {
                    let p = PnlParams { k_length: k as u16, k_smoothing: s as u16, d_length: d as u16 };
                    let ghost prev = before_s + entries_d(self, k as u16, s as u16, d_lo as int, d as int);
                    self.rank_point(p, &mut top);
                    proof {
                        let e = entry_of(self, p);
                        assert(before_s + entries_d(self, k as u16, s as u16, d_lo as int, d + 1)
                            =~= prev + e);
                        lemma_rank_seq_concat(Seq::empty(), prev, e);
                    }
                    d = d + 1;
                }
                proof {
                    if d_hi <= d_lo {
                        assert(entries_d(self, k as u16, s as u16, d_lo as int, d as int) =~= entries_d(self, k as u16, s as u16, d_lo as int, d_hi as int));
                    }
                    assert(before + entries_s(self, k as u16, s_lo as int, s + 1, d_lo as int, d_hi as int)
                        =~= before_s + entries_d(self, k as u16, s as u16, d_lo as int, d_hi as int));
                }
                s = s + 1;
            }
            proof {
                if s_hi <= s_lo {
                    assert(entries_s(self, k as u16, s_lo as int, s as int, d_lo as int, d_hi as int) =~= entries_s(self, k as u16, s_lo as int, s_hi as int, d_lo as int, d_hi as int));
                }
                assert(entries_k(self, k_lo as int, k + 1, s_lo as int, s_hi as int, d_lo as int, d_hi as int)
                    =~= before + entries_s(self, k as u16, s_lo as int, s_hi as int, d_lo as int, d_hi as int));
            }
            k = k + 1;
        }
        proof {
            if k_hi <= k_lo {
                assert(entries_k(self, k_lo as int, k as int, s_lo as int, s_hi as int, d_lo as int, d_hi as int) =~= entries_k(self, k_lo as int, k_hi as int, s_lo as int, s_hi as int, d_lo as int, d_hi as int));
            }
        }
        top.into_vec()
    }

    /// Backtest at one point: the signals are the candles where both lines of
    /// the oscillator are defined, replayed by [`simulate`].
    pub fn pnl(&self, pnl_params: PnlParams) -> (r: Result<PnL, SimulationError>)
        requires
            self.wf(),
            pnl_params.k_length >= 1,
            pnl_params.k_smoothing >= 1,
            pnl_params.d_length >= 1,
        ensures
            r == self.spec_pnl(pnl_params),
    {
        let stoch_values = stochastic(
            self.lhc.as_slice(),
            pnl_params.k_length,
            pnl_params.k_smoothing,
            pnl_params.d_length,
        );
        let ghost k = spec_k_line(self.lhc@, pnl_params.k_length as int, pnl_params.k_smoothing as int);
        let ghost d = spec_d_line(
            self.lhc@,
            pnl_params.k_length as int,
            pnl_params.k_smoothing as int,
            pnl_params.d_length as int,
        );
        let mut data: Vec<TriggerSignal> = Vec::new();
        let mut i: usize = 0;
        while i < stoch_values.len()
            invariant
                self.wf(),
                i <= stoch_values@.len(),
                stoch_values@.len() == self.lhc@.len(),
                forall|j: int|
                    0 <= j < stoch_values@.len() ==> (#[trigger] stoch_values@[j]).k_line == k[j]
                        && stoch_values@[j].d_line == d[j],
                data@ == spec_triggers(k, d, self.klines@, self.price_scale, i as nat),
            decreases stoch_values@.len() - i,
        {
            let v = stoch_values[i];
            match (v.k_line, v.d_line) {
                (Some(kv), Some(dv)) => {
                    let kl = &self.klines[i];
                    data.push(
                        TriggerSignal {
                            signal_in: kv,
                            signal_out: dv,
                            time_open: kl.time_open,
                            time_close: kl.time_close,
                            price_open: Dec { mantissa: kl.price_open as i128, scale: self.price_scale },
                            price_close: Dec { mantissa: kl.price_close as i128, scale: self.price_scale },
                        },
                    );
                },
                _ => {},
            }
            i = i + 1;
        }
        let sim_params = SimulateParams {
            signals: data,
            initial_capital: self.capital,
            exchange_fee: self.exchange_fee,
            min_qty: self.min_qty,
            min_price: self.min_price,
            asset_scale: self.asset_scale,
            funds_scale: self.funds_scale,
        };
        assert(sim_params@ == self.spec_model(pnl_params));
        simulate(sim_params)
    }
}

} // verus!
