use oscillatorsetups::decimal::Dec;
use oscillatorsetups::pnl_simulator::models::TriggerSignal;
use oscillatorsetups::pnl_simulator::pnl::{simulate, SimulateParams, SimulationError};

fn d(mantissa: i128, scale: u32) -> Dec {
    Dec { mantissa, scale }
}

fn same(a: Dec, b: Dec) -> bool {
    let x = a.mantissa.checked_mul(10i128.pow(b.scale));
    let y = b.mantissa.checked_mul(10i128.pow(a.scale));
    x.is_some() && x == y
}

fn tick(signal_in: i128, signal_out: i128, open: Dec, close: Dec) -> TriggerSignal {
    TriggerSignal {
        signal_in,
        signal_out,
        time_open: 1689294600000,
        time_close: 1689295499999,
        price_open: open,
        price_close: close,
    }
}

fn exchange_like(signals: Vec<TriggerSignal>) -> SimulateParams {
    SimulateParams::new(signals)
        .capital(d(10000, 0))
        .exchange_fee(Some(d(75, 5)))
        .min_qty(Some(d(1, 2)))
        .min_price(Some(d(100, 1)))
}

#[test]
fn defaults_of_new() {
    let p = SimulateParams::new(vec![tick(10, 9, d(163926, 2), d(17343, 1))]);
    assert_eq!(p.initial_capital, d(1000, 0));
    assert_eq!(p.exchange_fee, None);
    assert_eq!(p.min_qty, None);
    assert_eq!(p.min_price, None);
    assert_eq!(p.asset_scale, 8);
    assert_eq!(p.funds_scale, 8);
    let p = p.asset_scale(6).funds_scale(2);
    assert_eq!(p.asset_scale, 6);
    assert_eq!(p.funds_scale, 2);
}

#[test]
fn trade_scales_count_decimal_places() {
    let p = SimulateParams::new(vec![]).min_qty(Some(d(1, 3))).min_price(Some(d(1, 2)));
    assert_eq!(p.get_asset_trade_scale(), Some(3));
    assert_eq!(p.get_funds_trade_scale(), Some(2));
    let p = exchange_like(vec![]);
    assert_eq!(p.get_asset_trade_scale(), Some(2));
    assert_eq!(p.get_funds_trade_scale(), Some(0));
    assert_eq!(SimulateParams::new(vec![]).get_asset_trade_scale(), None);
}

#[test]
fn single_signal_closes_no_trade() {
    let r = simulate(exchange_like(vec![tick(10, 9, d(163926, 2), d(17343, 1))])).unwrap();
    assert_eq!(r.total_closed_trades, 0);
    assert_eq!(r.percent_profitable, None);
    assert_eq!(r.profit_factor, None);
    assert!(same(r.net_profit, d(0, 0)));
    assert_eq!(r.buy_and_hold_return, d(56389, 2));
}

#[test]
fn entry_then_exit_closes_one_trade() {
    let signals = vec![
        tick(10, 9, d(160000, 2), d(163000, 2)),
        tick(5, 9, d(163926, 2), d(170000, 2)),
        tick(5, 9, d(173430, 2), d(173430, 2)),
    ];
    let r = simulate(exchange_like(signals)).unwrap();
    assert_eq!(r.total_closed_trades, 1);
    assert_eq!(r.num_winning_trades, 1);
    assert_eq!(r.num_losing_trades, 0);
    assert!(same(r.net_profit, d(55447158475, 8)));
    assert!(same(r.gross_profit, d(55447158475, 8)));
    assert!(same(r.commission_paid.unwrap(), d(1541541525, 8)));
    assert_eq!(r.percent_profitable, Some(d(10000, 2)));
    assert_eq!(r.avg_winning_trade, d(55447, 2));
    assert_eq!(r.largest_winning_trade, d(55447, 2));
    assert!(same(r.avg_losing_trade, d(0, 0)));
    assert!(same(r.ratio_avg_win_loss, d(0, 0)));
    assert_eq!(r.avg_ticks_in_winning_trades, d(100, 2));
    assert_eq!(r.buy_and_hold_return, d(82309, 2));
}

#[test]
fn open_position_is_closed_on_the_last_tick() {
    let signals = vec![
        tick(10, 9, d(160000, 2), d(163000, 2)),
        tick(10, 9, d(163926, 2), d(170000, 2)),
        tick(10, 9, d(173430, 2), d(173430, 2)),
    ];
    let r = simulate(exchange_like(signals)).unwrap();
    assert_eq!(r.total_closed_trades, 1);
    assert!(same(r.net_profit, d(55447158475, 8)));
}

#[test]
fn equal_lines_trigger_nothing() {
    let signals = vec![
        tick(9, 9, d(100, 0), d(100, 0)),
        tick(9, 9, d(110, 0), d(110, 0)),
        tick(9, 9, d(120, 0), d(120, 0)),
    ];
    let r = simulate(SimulateParams::new(signals)).unwrap();
    assert_eq!(r.total_closed_trades, 0);
}

#[test]
fn wins_and_losses_give_the_statistics() {
    let p = |x: i128| d(x, 0);
    let signals = vec![
        tick(10, 9, p(100), p(100)),
        tick(5, 9, p(100), p(100)),
        tick(10, 9, p(110), p(110)),
        tick(5, 9, p(100), p(100)),
        tick(5, 9, p(90), p(90)),
    ];
    let r = simulate(SimulateParams::new(signals)).unwrap();
    assert_eq!(r.total_closed_trades, 2);
    assert_eq!(r.num_winning_trades, 1);
    assert_eq!(r.num_losing_trades, 1);
    assert!(same(r.gross_profit, p(100)));
    assert!(same(r.gross_loss, p(-110)));
    assert!(same(r.net_profit, p(-10)));
    assert_eq!(r.profit_factor, Some(d(909, 3)));
    assert_eq!(r.percent_profitable, Some(d(5000, 2)));
    assert_eq!(r.avg_winning_trade, d(10000, 2));
    assert_eq!(r.avg_losing_trade, d(-11000, 2));
    assert_eq!(r.ratio_avg_win_loss, d(909, 3));
    assert_eq!(r.largest_winning_trade, d(10000, 2));
    assert_eq!(r.largest_losing_trade, d(-11000, 2));
    assert_eq!(r.avg_ticks_in_winning_trades, d(100, 2));
    assert_eq!(r.avg_ticks_in_losing_trades, d(100, 2));
    assert_eq!(r.buy_and_hold_return, d(-10000, 2));
    assert!(same(r.commission_paid.unwrap(), p(0)));
}

#[test]
fn profit_factor_is_undefined_without_losses() {
    let signals = vec![
        tick(10, 9, d(100, 0), d(100, 0)),
        tick(5, 9, d(100, 0), d(100, 0)),
        tick(5, 9, d(120, 0), d(120, 0)),
    ];
    let r = simulate(SimulateParams::new(signals)).unwrap();
    assert_eq!(r.num_losing_trades, 0);
    assert_eq!(r.num_winning_trades, 1);
    assert_eq!(r.profit_factor, None);
}

#[test]
fn zero_profit_trade_closes_the_position() {
    let p = d(100, 0);
    let signals = vec![
        tick(10, 9, p, p),
        tick(5, 9, p, p),
        tick(10, 9, p, p),
        tick(10, 9, p, p),
        tick(5, 9, d(120, 0), d(120, 0)),
    ];
    let r = simulate(SimulateParams::new(signals)).unwrap();
    assert_eq!(r.total_closed_trades, 2);
    assert_eq!(r.num_winning_trades, 1);
    assert_eq!(r.num_losing_trades, 0);
}

#[test]
fn low_funds_stop_the_simulation() {
    let signals = vec![
        tick(10, 9, d(10, 0), d(10, 0)),
        tick(5, 9, d(10, 0), d(10, 0)),
        tick(10, 9, d(1, 0), d(1, 0)),
        tick(5, 9, d(1, 0), d(1, 0)),
        tick(5, 9, d(1, 0), d(1, 0)),
    ];
    let r = simulate(SimulateParams::new(signals).capital(d(20, 0))).unwrap();
    assert_eq!(r.total_closed_trades, 1);
    assert!(same(r.net_profit, d(-18, 0)));
    assert_eq!(r.percent_profitable, Some(d(0, 2)));
}

#[test]
fn empty_signals_are_refused() {
    assert_eq!(simulate(SimulateParams::new(vec![])).unwrap_err(), SimulationError::EmptySignals);
}

#[test]
fn zero_scale_is_refused() {
    let p = SimulateParams::new(vec![tick(1, 0, d(1, 0), d(1, 0))]).asset_scale(0);
    assert_eq!(simulate(p).unwrap_err(), SimulationError::InvalidScale);
}

#[test]
fn non_positive_price_is_refused() {
    let p = SimulateParams::new(vec![tick(1, 0, d(1, 0), d(0, 0))]);
    assert_eq!(simulate(p).unwrap_err(), SimulationError::InvalidPrice);
}

#[test]
fn out_of_range_amounts_are_reported() {
    let p = SimulateParams::new(vec![tick(1, 0, d(1, 0), d(1, 0))]).capital(d(i128::MAX / 4, 0));
    assert_eq!(simulate(p).unwrap_err(), SimulationError::Overflow);
}
