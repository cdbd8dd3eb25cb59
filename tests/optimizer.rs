use oscillatorsetups::decimal::Dec;
use oscillatorsetups::exchange::chart_data::KlinesSubset;
use oscillatorsetups::pnl_simulator::pnl::SimulationError;
use oscillatorsetups::pnl_simulator::ranking::{ranks_below, Entry, PnlParams, Profit, TopProfits, CAPACITY};
use oscillatorsetups::pnl_simulator::stochastic::{ParamRange, PnlRange, Stochastic};

fn params(k: u16, s: u16, d: u16) -> PnlParams {
    PnlParams { k_length: k, k_smoothing: s, d_length: d }
}

fn entry(m: i128, scale: u32, p: PnlParams) -> Entry {
    (Profit(Dec { mantissa: m, scale }), p)
}

fn fill(entries: &[Entry]) -> Vec<Entry> {
    let mut top = TopProfits::new();
    for e in entries {
        top.insert(*e);
    }
    top.into_vec()
}

fn descending(v: &[Entry]) -> bool {
    v.windows(2).all(|w| !ranks_below(&w[0], &w[1]))
}

fn zigzag(n: usize) -> Vec<KlinesSubset> {
    (0..n)
        .map(|i| {
            let base = 10000 + ((i * 37) % 23) as i64 * 40 - ((i * 11) % 7) as i64 * 30;
            KlinesSubset {
                time_open: 1_700_000_000_000 + i as u64 * 60_000,
                price_open: base,
                price_low: base - 50,
                price_high: base + 60,
                price_close: base + 20,
                time_close: 1_700_000_000_000 + i as u64 * 60_000 + 59_999,
                volume: Dec { mantissa: 1, scale: 0 },
            }
        })
        .collect()
}

#[test]
fn ranking_keeps_the_best_in_descending_order() {
    let entries: Vec<Entry> = (0..150u16).map(|i| entry(((i as i128) * 7919) % 151, 1, params(i + 1, 1, 1))).collect();
    let r = fill(&entries);
    assert_eq!(r.len(), CAPACITY);
    assert!(descending(&r));
    let mut all = entries.clone();
    all.sort_by(|a, b| b.0 .0.mantissa.cmp(&a.0 .0.mantissa).then(b.1.cmp(&a.1)));
    assert_eq!(r, all[..CAPACITY].to_vec());
}

#[test]
fn ranking_ties_are_broken_by_parameters() {
    let a = entry(5, 0, params(3, 1, 1));
    let b = entry(50, 1, params(2, 9, 9));
    let c = entry(500, 2, params(2, 9, 10));
    let r = fill(&[a, b, c]);
    assert_eq!(r, vec![a, c, b]);
}

#[test]
fn ranking_does_not_depend_on_order() {
    let entries: Vec<Entry> = (0..130u16).map(|i| entry(((i as i128) * 31) % 17 - 8, (i % 3) as u32, params(1 + i / 10, 1 + i % 10, 2))).collect();
    let forward = fill(&entries);
    let mut reversed = entries.clone();
    reversed.reverse();
    let backward = fill(&reversed);
    let mut shuffled = entries.clone();
    shuffled.rotate_left(47);
    shuffled.swap(3, 90);
    assert_eq!(forward, backward);
    assert_eq!(forward, fill(&shuffled));
    assert_eq!(forward.len(), CAPACITY);
    assert!(descending(&forward));
    assert_eq!(fill(&entries[..7]).len(), 7);
}

#[test]
fn context_holds_the_candle_prices() {
    let klines = zigzag(5);
    let st = Stochastic::new("binance".to_string(), klines.clone(), 2);
    assert_eq!(st.lhc.len(), 5);
    assert_eq!(st.lhc[3].price_high, klines[3].price_high);
    assert_eq!(st.lhc[3].price_low, klines[3].price_low);
    assert_eq!(st.lhc[3].price_close, klines[3].price_close);
    assert_eq!(st.capital, Dec { mantissa: 1000, scale: 0 });
    let st = st.exchange_fee(Dec { mantissa: 1, scale: 3 }).min_qty(Dec { mantissa: 1, scale: 4 }).pnl_fast(true);
    assert_eq!(st.exchange_fee, Some(Dec { mantissa: 1, scale: 3 }));
    assert_eq!(st.min_qty, Some(Dec { mantissa: 1, scale: 4 }));
    assert!(st.pnl_fast);
}

#[test]
fn backtest_on_too_short_series_has_no_signal() {
    let st = Stochastic::new("coinbase".to_string(), zigzag(4), 2);
    assert_eq!(st.pnl(params(3, 2, 2)).unwrap_err(), SimulationError::EmptySignals);
}

#[test]
fn search_ranks_every_grid_point() {
    let st = Stochastic::new("coinbase".to_string(), zigzag(60), 2).min_price(Dec { mantissa: 1, scale: 2 });
    let range = PnlRange {
        k_length: ParamRange { start: 2, end: 4 },
        k_smoothing: ParamRange { start: 1, end: 2 },
        d_length: ParamRange { start: 1, end: 2 },
    };
    let top = st.top_net_profit(range);
    assert_eq!(top.len(), 12);
    assert!(descending(&top));
    for (profit, p) in &top {
        assert_eq!(st.pnl(*p).unwrap().net_profit, profit.0);
    }
}

#[test]
fn search_keeps_one_hundred() {
    let st = Stochastic::new("coinbase".to_string(), zigzag(80), 2);
    let range = PnlRange {
        k_length: ParamRange { start: 2, end: 6 },
        k_smoothing: ParamRange { start: 1, end: 5 },
        d_length: ParamRange { start: 1, end: 5 },
    };
    let top = st.top_net_profit(range);
    assert_eq!(top.len(), CAPACITY);
    assert!(descending(&top));
}

#[test]
fn search_over_empty_range_is_empty() {
    let st = Stochastic::new("coinbase".to_string(), zigzag(20), 2);
    let range = PnlRange {
        k_length: ParamRange { start: 5, end: 4 },
        k_smoothing: ParamRange { start: 1, end: 2 },
        d_length: ParamRange { start: 1, end: 2 },
    };
    assert!(st.top_net_profit(range).is_empty());
}
