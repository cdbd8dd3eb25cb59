//! Replay of trading signals: one long position at a time, one bar of delay
//! between a signal and its execution, and the performance statistics of the
//! trades that closed.
use crate::decimal::{
    lemma_above_nonneg, lt, places, spec_add, spec_mul, spec_round_div, spec_sub, spec_trunc, Dec,
};
use crate::pnl_simulator::models::{PnL, TriggerSignal};
use crate::pnl_simulator::quantize::{
    spec_stage_purchase, spec_stage_sale, stage_purchase, stage_sale,
};
use vstd::prelude::*;

verus! {

/// Below this much funds (in whole units) a simulation stops after a sale.
pub const MIN_FUNDS: i128 = 10;

/// A total loss no larger than `f64::EPSILON` counts as no loss at all.
pub const LOSS_EPSILON_MANTISSA: i128 = 2220446049250313;

pub const LOSS_EPSILON_SCALE: u32 = 31;

/// Why a simulation could not run.
#[derive(Clone, Copy, Debug, PartialEq, Eq, Structural)]
pub enum SimulationError {
    /// There is no signal to replay.
    EmptySignals,
    /// `asset_scale` or `funds_scale` is zero.
    InvalidScale,
    /// A price is zero or negative.
    InvalidPrice,
    /// An amount left the range of [`Dec`].
    Overflow,
}

/// The parameters of a simulation, with the signals as a sequence.
pub struct SimModel {
    pub signals: Seq<TriggerSignal>,
    pub initial_capital: Dec,
    pub exchange_fee: Option<Dec>,
    pub min_qty: Option<Dec>,
    pub min_price: Option<Dec>,
    pub asset_scale: u32,
    pub funds_scale: u32,
}

/// Parameters of a simulation.
///
/// - `signals`: the ticks to replay, in time order.
/// - `initial_capital`: the funds at the start (default 1000).
/// - `exchange_fee`: the fee rate of each purchase and sale (default none).
/// - `min_qty`: the exchange's quantity increment, or lot size (default none).
/// - `min_price`: the exchange's price increment (default none).
/// - `asset_scale`: decimal places of the asset balance (default 8).
/// - `funds_scale`: decimal places of the funds balance (default 8).
pub struct SimulateParams {
    pub signals: Vec<TriggerSignal>,
    pub initial_capital: Dec,
    pub exchange_fee: Option<Dec>,
    pub min_qty: Option<Dec>,
    pub min_price: Option<Dec>,
    pub asset_scale: u32,
    pub funds_scale: u32,
}

/// The decimal places of an increment, where one is set.
pub open spec fn spec_trade_scale(increment: Option<Dec>) -> Option<u32> {
    match increment {
        None => None,
        Some(d) => Some(places(d.mantissa as int, d.scale as nat) as u32),
    }
}

pub open spec fn dec_one() -> Dec {
    Dec { mantissa: 1, scale: 0 }
}

pub open spec fn dec_zero() -> Dec {
    Dec { mantissa: 0, scale: 0 }
}

impl View for SimulateParams {
    type V = SimModel;

    open spec fn view(&self) -> SimModel {
        SimModel {
            signals: self.signals@,
            initial_capital: self.initial_capital,
            exchange_fee: self.exchange_fee,
            min_qty: self.min_qty,
            min_price: self.min_price,
            asset_scale: self.asset_scale,
            funds_scale: self.funds_scale,
        }
    }
}

impl SimulateParams {
    /// Parameters for `signals` with the defaults.
    pub fn new(signals: Vec<TriggerSignal>) -> (r: Self)
        ensures
            r.signals@ == signals@,
            r.initial_capital == (Dec { mantissa: 1000, scale: 0 }),
            r.exchange_fee is None,
            r.min_qty is None,
            r.min_price is None,
            r.asset_scale == 8,
            r.funds_scale == 8,
    {
        SimulateParams {
            signals,
            initial_capital: Dec { mantissa: 1000, scale: 0 },
            exchange_fee: None,
            min_qty: None,
            min_price: None,
            asset_scale: 8,
            funds_scale: 8,
        }
    }

    /// The same parameters with `initial_capital` set.
    pub fn capital(self, capital: Dec) -> (r: Self)
        ensures
            r.initial_capital == capital,
            r.signals@ == self.signals@,
            r.exchange_fee == self.exchange_fee,
            r.min_qty == self.min_qty,
            r.min_price == self.min_price,
            r.asset_scale == self.asset_scale,
            r.funds_scale == self.funds_scale,
    {
        SimulateParams { initial_capital: capital, ..self }
    }

    /// The same parameters with `exchange_fee` set.
    pub fn exchange_fee(self, exchange_fee: Option<Dec>) -> (r: Self)
        ensures
            r.exchange_fee == exchange_fee,
            r.signals@ == self.signals@,
            r.initial_capital == self.initial_capital,
            r.min_qty == self.min_qty,
            r.min_price == self.min_price,
            r.asset_scale == self.asset_scale,
            r.funds_scale == self.funds_scale,
    {
        SimulateParams { exchange_fee, ..self }
    }

    /// The same parameters with `min_qty` set.
    pub fn min_qty(self, min_qty: Option<Dec>) -> (r: Self)
        ensures
            r.min_qty == min_qty,
            r.signals@ == self.signals@,
            r.initial_capital == self.initial_capital,
            r.exchange_fee == self.exchange_fee,
            r.min_price == self.min_price,
            r.asset_scale == self.asset_scale,
            r.funds_scale == self.funds_scale,
    {
        SimulateParams { min_qty, ..self }
    }

    /// The same parameters with `min_price` set.
    pub fn min_price(self, min_price: Option<Dec>) -> (r: Self)
        ensures
            r.min_price == min_price,
            r.signals@ == self.signals@,
            r.initial_capital == self.initial_capital,
            r.exchange_fee == self.exchange_fee,
            r.min_qty == self.min_qty,
            r.asset_scale == self.asset_scale,
            r.funds_scale == self.funds_scale,
    {
        SimulateParams { min_price, ..self }
    }

    /// The same parameters with `asset_scale` set.
    pub fn asset_scale(self, asset_scale: u32) -> (r: Self)
        ensures
            r.asset_scale == asset_scale,
            r.signals@ == self.signals@,
            r.initial_capital == self.initial_capital,
            r.exchange_fee == self.exchange_fee,
            r.min_qty == self.min_qty,
            r.min_price == self.min_price,
            r.funds_scale == self.funds_scale,
    {
        SimulateParams { asset_scale, ..self }
    }

    /// The same parameters with `funds_scale` set.
    pub fn funds_scale(self, funds_scale: u32) -> (r: Self)
        ensures
            r.funds_scale == funds_scale,
            r.signals@ == self.signals@,
            r.initial_capital == self.initial_capital,
            r.exchange_fee == self.exchange_fee,
            r.min_qty == self.min_qty,
            r.min_price == self.min_price,
            r.asset_scale == self.asset_scale,
    {
        SimulateParams { funds_scale, ..self }
    }

    /// The decimal places of `min_qty` (`0.001` has 3), where it is set.
    pub fn get_asset_trade_scale(&self) -> (r: Option<u32>)
        ensures
            r == spec_trade_scale(self.min_qty),
    {
        match &self.min_qty {
            None => None,
            Some(d) => Some(d.decimal_places()),
        }
    }

    /// The decimal places of `min_price` (`0.01` has 2, `10` has none), where it is set.
    pub fn get_funds_trade_scale(&self) -> (r: Option<u32>)
        ensures
            r == spec_trade_scale(self.min_price),
    {
        match &self.min_price {
            None => None,
            Some(d) => Some(d.decimal_places()),
        }
    }
}

/// The capital delta of buying at `price_entry` with all of `funds` and selling
/// all of it at `price_exit`, under the same quantization, rounded to 2 places.
#[verifier::opaque]
pub open spec fn spec_buy_and_hold_return(
    funds: Dec,
    exchange_fee: Option<Dec>,
    price_entry: Dec,
    price_exit: Dec,
    asset_scale: u32,
    funds_scale: u32,
    funds_trade_scale: Option<u32>,
    asset_trade_scale: Option<u32>,
) -> Option<Dec> {
    match spec_stage_purchase(
        funds,
        price_entry,
        exchange_fee,
        asset_scale,
        funds_scale,
        funds_trade_scale,
    ) {
        None => None,
        Some(purchase) => {
            let paid = match spec_sub(funds, purchase.cost_before_fee) {
                None => None,
                Some(p) => match purchase.total_fee {
                    None => Some(p),
                    Some(fee) => spec_sub(p, fee),
                },
            };
            match (
                paid,
                spec_stage_sale(
                    purchase.asset_qty,
                    price_exit,
                    exchange_fee,
                    asset_scale,
                    funds_scale,
                    asset_trade_scale,
                ),
            ) {
                (Some(paid), Some(sale)) => {
                    let sold = match spec_add(paid, sale.sale_before_fee) {
                        None => None,
                        Some(p) => match sale.fee_asset_total {
                            None => Some(p),
                            Some(fee) => match spec_mul(fee, price_exit) {
                                None => None,
                                Some(cost) => spec_sub(p, spec_trunc(cost, funds_scale)),
                            },
                        },
                    };
                    let left = match spec_sub(purchase.asset_qty, sale.assets_sold) {
                        None => None,
                        Some(q) => spec_mul(q, price_exit),
                    };
                    match (sold, left) {
                        (Some(sold), Some(left)) => match spec_add(
                            sold,
                            spec_trunc(left, funds_scale),
                        ) {
                            None => None,
                            Some(position) => match spec_sub(position, funds) {
                                None => None,
                                Some(delta) => spec_round_div(delta, dec_one(), 2),
                            },
                        },
                        _ => None,
                    }
                },
                _ => None,
            }
        },
    }
}

/// Buy-and-hold baseline: a single purchase at `price_entry` and a single sale of
/// what was bought at `price_exit`; returns the change in capital rounded to 2
/// places (halves to even). `None` where `price_entry` is zero or an amount
/// leaves the range of [`Dec`].
pub fn buy_and_hold_return(
    funds: &Dec,
    exchange_fee: &Option<Dec>,
    price_entry: &Dec,
    price_exit: &Dec,
    asset_scale: u32,
    funds_scale: u32,
    funds_trade_scale: &Option<u32>,
    asset_trade_scale: &Option<u32>,
) -> (r: Option<Dec>)
    ensures
        r == spec_buy_and_hold_return(
            *funds,
            *exchange_fee,
            *price_entry,
            *price_exit,
            asset_scale,
            funds_scale,
            *funds_trade_scale,
            *asset_trade_scale,
        ),
{
    reveal(spec_buy_and_hold_return);
    let purchase = match stage_purchase(
        funds,
        price_entry,
        exchange_fee,
        asset_scale,
        funds_scale,
        funds_trade_scale,
    ) {
        None => return None,
        Some(p) => p,
    };
    let paid = match funds.checked_sub(&purchase.cost_before_fee) {
        None => None,
        Some(p) => match &purchase.total_fee {
            None => Some(p),
            Some(fee) => p.checked_sub(fee),
        },
    };
    let sale = stage_sale(
        &purchase.asset_qty,
        price_exit,
        exchange_fee,
        asset_scale,
        funds_scale,
        asset_trade_scale,
    );
    let (paid, sale) = match (paid, sale) {
        (Some(paid), Some(sale)) => (paid, sale),
        _ => return None,
    };
    let sold = match paid.checked_add(&sale.sale_before_fee) {
        None => None,
        Some(p) => match &sale.fee_asset_total {
            None => Some(p),
            Some(fee) => match fee.checked_mul(price_exit) {
                None => None,
                Some(cost) => p.checked_sub(&cost.trunc_with_scale(funds_scale)),
            },
        },
    };
    let left = match purchase.asset_qty.checked_sub(&sale.assets_sold) {
        None => None,
        Some(q) => q.checked_mul(price_exit),
    };
    match (sold, left) {
        (Some(sold), Some(left)) => match sold.checked_add(&left.trunc_with_scale(funds_scale)) {
            None => None,
            Some(position) => match position.checked_sub(funds) {
                None => None,
                Some(delta) => delta.checked_round_div(&Dec::from_int(1), 2),
            },
        },
        _ => None,
    }
}

/// Where the strategy stands between two ticks.
#[derive(Clone, Copy, Debug, PartialEq, Eq, Structural)]
pub enum Position {
    /// No asset held, nothing due.
    Flat,
    /// No asset held; a purchase is due at the next open.
    PendingBuy,
    /// The asset is held.
    Long,
    /// The asset is held; a sale is due at the next open.
    PendingSell,
}

/// The running state of a simulation.
#[derive(Clone, Copy, Debug, PartialEq, Eq, Structural)]
pub struct Ledger {
    pub position: Position,
    pub funds: Dec,
    pub assets: Dec,
    /// What the open position cost, fee included.
    pub cost_basis: Dec,
    pub commission: Dec,
    /// The tick of the purchase that opened the position.
    pub anchor: usize,
    pub closed: usize,
    pub wins: usize,
    pub losses: usize,
    pub gross_profit: Dec,
    pub gross_loss: Dec,
    pub largest_win: Option<Dec>,
    pub largest_loss: Option<Dec>,
    pub win_ticks: usize,
    pub loss_ticks: usize,
    /// Funds fell below [`MIN_FUNDS`]: no further tick is processed.
    pub stopped: bool,
}

pub open spec fn holding(p: Position) -> bool {
    p == Position::Long || p == Position::PendingSell
}

pub open spec fn initial_ledger(capital: Dec) -> Ledger {
    Ledger {
        position: Position::Flat,
        funds: capital,
        assets: dec_zero(),
        cost_basis: dec_zero(),
        commission: dec_zero(),
        anchor: 0,
        closed: 0,
        wins: 0,
        losses: 0,
        gross_profit: dec_zero(),
        gross_loss: dec_zero(),
        largest_win: None,
        largest_loss: None,
        win_ticks: 0,
        loss_ticks: 0,
        stopped: false,
    }
}

/// The counters stay below the number of ticks processed (`i`).
pub open spec fn ledger_bounds(l: Ledger, i: int) -> bool {
    &&& l.closed <= i
    &&& l.win_ticks + l.loss_ticks <= i
    &&& l.wins + l.losses <= l.closed
    &&& holding(l.position) ==> l.anchor < i && l.closed <= l.anchor && l.win_ticks
        + l.loss_ticks <= l.anchor
}

/// The purchase at the open of tick `i`.
pub open spec fn spec_buy(p: SimModel, l: Ledger, i: int) -> Option<Ledger> {
    match spec_stage_purchase(
        l.funds,
        p.signals[i].price_open,
        p.exchange_fee,
        p.asset_scale,
        p.funds_scale,
        spec_trade_scale(p.min_price),
    ) {
        None => None,
        Some(purchase) => {
            let basis = match purchase.total_fee {
                None => Some(purchase.cost_before_fee),
                Some(fee) => spec_add(purchase.cost_before_fee, fee),
            };
            let commission = match purchase.total_fee {
                None => Some(l.commission),
                Some(fee) => spec_add(l.commission, fee),
            };
            match (basis, commission, spec_add(l.assets, purchase.asset_qty)) {
                (Some(basis), Some(commission), Some(assets)) => match spec_sub(l.funds, basis) {
                    None => None,
                    Some(funds) => Some(
                        Ledger {
                            position: Position::Long,
                            funds,
                            assets,
                            cost_basis: basis,
                            commission,
                            anchor: i as usize,
                            ..l
                        },
                    ),
                },
                _ => None,
            }
        },
    }
}

/// The books after a trade with `profit` closed at tick `i`.
pub open spec fn spec_book(l: Ledger, profit: Dec, i: int) -> Option<Ledger> {
    let held = (i - l.anchor) as usize;
    let l1 = Ledger { position: Position::Flat, closed: (l.closed + 1) as usize, ..l };
    if profit.mantissa > 0 {
        match spec_add(l.gross_profit, profit) {
            None => None,
            Some(g) => Some(
                Ledger {
                    gross_profit: g,
                    wins: (l.wins + 1) as usize,
                    win_ticks: (l.win_ticks + held) as usize,
                    largest_win: match l.largest_win {
                        Some(w) => if lt(w, profit) {
                            Some(profit)
                        } else {
                            Some(w)
                        },
                        None => Some(profit),
                    },
                    ..l1
                },
            ),
        }
    } else if profit.mantissa < 0 {
        match spec_add(l.gross_loss, profit) {
            None => None,
            Some(g) => Some(
                Ledger {
                    gross_loss: g,
                    losses: (l.losses + 1) as usize,
                    loss_ticks: (l.loss_ticks + held) as usize,
                    largest_loss: match l.largest_loss {
                        Some(w) => if lt(profit, w) {
                            Some(profit)
                        } else {
                            Some(w)
                        },
                        None => Some(profit),
                    },
                    ..l1
                },
            ),
        }
    } else {
        Some(l1)
    }
}

/// The sale at the open of tick `i`. The sale's profit is its proceeds less the
/// cost basis, less the fee charged in the asset, valued at the sale price.
pub open spec fn spec_sell(p: SimModel, l: Ledger, i: int) -> Option<Ledger> {
    let price = p.signals[i].price_open;
    match spec_stage_sale(
        l.assets,
        price,
        p.exchange_fee,
        p.asset_scale,
        p.funds_scale,
        spec_trade_scale(p.min_qty),
    ) {
        None => None,
        Some(sale) => match (
            spec_add(l.funds, sale.sale_before_fee),
            spec_sub(l.assets, sale.assets_sold),
            spec_sub(sale.sale_before_fee, l.cost_basis),
        ) {
            (Some(funds), Some(assets), Some(profit)) => {
                let charged: Option<(Dec, Dec, Dec)> = match sale.fee_asset_total {
                    None => Some((l.commission, assets, profit)),
                    Some(fee) => match spec_mul(fee, price) {
                        None => None,
                        Some(cost) => match (
                            spec_add(l.commission, cost),
                            spec_sub(assets, fee),
                            spec_sub(profit, cost),
                        ) {
                            (Some(c), Some(a), Some(pr)) => Some((c, a, pr)),
                            _ => None,
                        },
                    },
                };
                match charged {
                    None => None,
                    Some((commission, assets, profit)) => match spec_book(
                        Ledger { funds, assets, commission, ..l },
                        profit,
                        i,
                    ) {
                        None => None,
                        Some(booked) => Some(
                            Ledger {
                                stopped: lt(funds, Dec { mantissa: MIN_FUNDS, scale: 0 }),
                                ..booked
                            },
                        ),
                    },
                }
            },
            _ => None,
        },
    }
}

/// The decision at the end of a tick: a crossing of the lines schedules an order
/// for the next open.
pub open spec fn spec_decide(l: Ledger, t: TriggerSignal) -> Ledger {
    match l.position {
        Position::Flat => if t.signal_in > t.signal_out {
            Ledger { position: Position::PendingBuy, ..l }
        } else {
            l
        },
        Position::Long => if t.signal_in < t.signal_out {
            Ledger { position: Position::PendingSell, ..l }
        } else {
            l
        },
        _ => l,
    }
}

/// Tick `i`: the due order runs at the open (the last tick closes a position
/// that is still open), then the decision is taken at the close.
#[verifier::opaque]
pub open spec fn spec_step(p: SimModel, l: Ledger, i: int) -> Option<Ledger> {
    let last = i == p.signals.len() - 1;
    let executed = match l.position {
        Position::PendingBuy => spec_buy(p, l, i),
        Position::PendingSell => spec_sell(p, l, i),
        Position::Long => if last {
            spec_sell(p, l, i)
        } else {
            Some(l)
        },
        Position::Flat => Some(l),
    };
    match executed {
        None => None,
        Some(e) => if e.stopped {
            Some(e)
        } else {
            Some(spec_decide(e, p.signals[i]))
        },
    }
}

/// The ledger after the first `n` ticks; `None` where an amount left the range of [`Dec`].
pub open spec fn spec_run(p: SimModel, n: nat) -> Option<Ledger>
    decreases n,
{
    if n == 0 {
        Some(initial_ledger(p.initial_capital))
    } else {
        match spec_run(p, (n - 1) as nat) {
            None => None,
            Some(l) => if l.stopped {
                Some(l)
            } else {
                spec_step(p, l, n - 1)
            },
        }
    }
}

proof fn lemma_book_shape(l: Ledger, profit: Dec, i: int)
    requires
        i <= usize::MAX,
        holding(l.position),
        ledger_bounds(l, i),
    ensures
        spec_book(l, profit, i) matches Some(n) ==> {
            &&& n.position == Position::Flat
            &&& n.closed == l.closed + 1
            &&& n.wins + n.losses <= l.wins + l.losses + 1
            &&& n.win_ticks + n.loss_ticks == l.win_ticks + l.loss_ticks + (i - l.anchor)
                || n.win_ticks + n.loss_ticks == l.win_ticks + l.loss_ticks
        },
{
}

proof fn lemma_sell_shape(p: SimModel, l: Ledger, i: int)
    requires
        0 <= i < p.signals.len() <= usize::MAX,
        holding(l.position),
        ledger_bounds(l, i),
    ensures
        spec_sell(p, l, i) matches Some(n) ==> ledger_bounds(n, i + 1) && n.position
            == Position::Flat,
{
    let price = p.signals[i].price_open;
    match spec_stage_sale(
        l.assets,
        price,
        p.exchange_fee,
        p.asset_scale,
        p.funds_scale,
        spec_trade_scale(p.min_qty),
    ) {
        None => {},
        Some(sale) => match (
            spec_add(l.funds, sale.sale_before_fee),
            spec_sub(l.assets, sale.assets_sold),
            spec_sub(sale.sale_before_fee, l.cost_basis),
        ) {
            (Some(funds), Some(assets), Some(profit)) => {
                let charged: Option<(Dec, Dec, Dec)> = match sale.fee_asset_total {
                    None => Some((l.commission, assets, profit)),
                    Some(fee) => match spec_mul(fee, price) {
                        None => None,
                        Some(cost) => match (
                            spec_add(l.commission, cost),
                            spec_sub(assets, fee),
                            spec_sub(profit, cost),
                        ) {
                            (Some(c), Some(a), Some(pr)) => Some((c, a, pr)),
                            _ => None,
                        },
                    },
                };
                match charged {
                    None => {},
                    Some((commission, assets, profit)) => {
                        lemma_book_shape(Ledger { funds, assets, commission, ..l }, profit, i);
                    },
                }
            },
            _ => {},
        },
    }
}

proof fn lemma_step_bounds(p: SimModel, l: Ledger, i: int)
    requires
        0 <= i < p.signals.len() <= usize::MAX,
        ledger_bounds(l, i),
    ensures
        spec_step(p, l, i) matches Some(n) ==> ledger_bounds(n, i + 1),
{
    reveal(spec_step);
    match l.position {
        Position::PendingSell => {
            lemma_sell_shape(p, l, i);
        },
        Position::Long => {
            lemma_sell_shape(p, l, i);
        },
        _ => {},
    }
}

proof fn lemma_run_stays(p: SimModel, i: nat, n: nat)
    requires
        i <= n,
        spec_run(p, i) matches Some(l) && l.stopped,
    ensures
        spec_run(p, n) == spec_run(p, i),
    decreases n - i,
{
    if i < n {
        lemma_run_stays(p, i, (n - 1) as nat);
    }
}

proof fn lemma_run_fails(p: SimModel, i: nat, n: nat)
    requires
        i <= n,
        spec_run(p, i) is None,
    ensures
        spec_run(p, n) is None,
    decreases n - i,
{
    if i < n {
        lemma_run_fails(p, i, (n - 1) as nat);
    }
}

/// Without a losing trade the gross loss is still zero.
pub open spec fn loss_free(l: Ledger) -> bool {
    l.losses == 0 ==> l.gross_loss == dec_zero()
}

proof fn lemma_sell_loss_free(p: SimModel, l: Ledger, i: int)
    requires
        0 <= i < p.signals.len() <= usize::MAX,
        holding(l.position),
        ledger_bounds(l, i),
        loss_free(l),
    ensures
        spec_sell(p, l, i) matches Some(n) ==> loss_free(n),
{
    let price = p.signals[i].price_open;
    match spec_stage_sale(
        l.assets,
        price,
        p.exchange_fee,
        p.asset_scale,
        p.funds_scale,
        spec_trade_scale(p.min_qty),
    ) {
        None => {},
        Some(sale) => match (
            spec_add(l.funds, sale.sale_before_fee),
            spec_sub(l.assets, sale.assets_sold),
            spec_sub(sale.sale_before_fee, l.cost_basis),
        ) {
            (Some(funds), Some(assets), Some(profit)) => {
                let charged: Option<(Dec, Dec, Dec)> = match sale.fee_asset_total {
                    None => Some((l.commission, assets, profit)),
                    Some(fee) => match spec_mul(fee, price) {
                        None => None,
                        Some(cost) => match (
                            spec_add(l.commission, cost),
                            spec_sub(assets, fee),
                            spec_sub(profit, cost),
                        ) {
                            (Some(c), Some(a), Some(pr)) => Some((c, a, pr)),
                            _ => None,
                        },
                    },
                };
                match charged {
                    None => {},
                    Some((commission, assets, profit)) => {
                        lemma_book_shape(Ledger { funds, assets, commission, ..l }, profit, i);
                    },
                }
            },
            _ => {},
        },
    }
}

proof fn lemma_run_loss_free(p: SimModel, n: nat)
    requires
        n <= p.signals.len() <= usize::MAX,
    ensures
        spec_run(p, n) matches Some(l) ==> loss_free(l) && ledger_bounds(l, n as int),
    decreases n,
{
    if n > 0 {
        lemma_run_loss_free(p, (n - 1) as nat);
        match spec_run(p, (n - 1) as nat) {
            None => {},
            Some(l) => if !l.stopped {
                let i = n - 1;
                lemma_step_bounds(p, l, i);
                reveal(spec_step);
                match l.position {
                    Position::PendingSell => {
                        lemma_sell_loss_free(p, l, i);
                    },
                    Position::Long => {
                        lemma_sell_loss_free(p, l, i);
                    },
                    _ => {},
                }
            },
        }
    }
}

/// The profit factor of a simulation without a losing trade is undefined:
/// never an infinite or a not-a-number value.
pub proof fn lemma_no_loss_no_profit_factor(p: SimModel)
    requires
        p.signals.len() <= usize::MAX,
    ensures
        spec_simulate(p) matches Ok(r) ==> (r.num_losing_trades == 0 ==> r.profit_factor is None),
{
    let n = p.signals.len();
    lemma_run_loss_free(p, n);
    reveal(spec_report);
    vstd::arithmetic::power::lemma_pow0(10);
    vstd::arithmetic::power::lemma_pow_positive(10, LOSS_EPSILON_SCALE as nat);
}

fn buy(p: &SimulateParams, l: &Ledger, i: usize, fts: &Option<u32>) -> (r: Option<Ledger>)
    requires
        i < p.signals@.len(),
        *fts == spec_trade_scale(p.min_price),
    ensures
        r == spec_buy(p@, *l, i as int),
{
    let purchase = match stage_purchase(
        &l.funds,
        &p.signals[i].price_open,
        &p.exchange_fee,
        p.asset_scale,
        p.funds_scale,
        fts,
    ) {
        None => return None,
        Some(v) => v,
    };
    let basis = match &purchase.total_fee {
        None => Some(purchase.cost_before_fee),
        Some(fee) => purchase.cost_before_fee.checked_add(fee),
    };
    let commission = match &purchase.total_fee {
        None => Some(l.commission),
        Some(fee) => l.commission.checked_add(fee),
    };
    match (basis, commission, l.assets.checked_add(&purchase.asset_qty)) {
        (Some(basis), Some(commission), Some(assets)) => match l.funds.checked_sub(&basis) {
            None => None,
            Some(funds) => Some(
                Ledger {
                    position: Position::Long,
                    funds,
                    assets,
                    cost_basis: basis,
                    commission,
                    anchor: i,
                    ..*l
                },
            ),
        },
        _ => None,
    }
}

fn book(l: &Ledger, profit: &Dec, i: usize) -> (r: Option<Ledger>)
    requires
        holding(l.position),
        ledger_bounds(*l, i as int),
    ensures
        r == spec_book(*l, *profit, i as int),
{
    let held = i - l.anchor;
    let l1 = Ledger { position: Position::Flat, closed: l.closed + 1, ..*l };
    if profit.mantissa > 0 {
        match l.gross_profit.checked_add(profit) {
            None => None,
            Some(g) => Some(
                Ledger {
                    gross_profit: g,
                    wins: l.wins + 1,
                    win_ticks: l.win_ticks + held,
                    largest_win: match &l.largest_win {
                        Some(w) => if w.lt(profit) {
                            Some(*profit)
                        } else {
                            Some(*w)
                        },
                        None => Some(*profit),
                    },
                    ..l1
                },
            ),
        }
    } else if profit.mantissa < 0 {
        match l.gross_loss.checked_add(profit) {
            None => None,
            Some(g) => Some(
                Ledger {
                    gross_loss: g,
                    losses: l.losses + 1,
                    loss_ticks: l.loss_ticks + held,
                    largest_loss: match &l.largest_loss {
                        Some(w) => if profit.lt(w) {
                            Some(*profit)
                        } else {
                            Some(*w)
                        },
                        None => Some(*profit),
                    },
                    ..l1
                },
            ),
        }
    } else {
        Some(l1)
    }
}

fn sell(p: &SimulateParams, l: &Ledger, i: usize, ats: &Option<u32>) -> (r: Option<Ledger>)
    requires
        i < p.signals@.len(),
        holding(l.position),
        ledger_bounds(*l, i as int),
        *ats == spec_trade_scale(p.min_qty),
    ensures
        r == spec_sell(p@, *l, i as int),
{
    let price = p.signals[i].price_open;
    let sale = match stage_sale(
        &l.assets,
        &price,
        &p.exchange_fee,
        p.asset_scale,
        p.funds_scale,
        ats,
    ) {
        None => return None,
        Some(v) => v,
    };
    let (funds, assets, profit) = match (
        l.funds.checked_add(&sale.sale_before_fee),
        l.assets.checked_sub(&sale.assets_sold),
        sale.sale_before_fee.checked_sub(&l.cost_basis),
    ) {
        (Some(f), Some(a), Some(pr)) => (f, a, pr),
        _ => return None,
    };
    let charged: Option<(Dec, Dec, Dec)> = match &sale.fee_asset_total {
        None => Some((l.commission, assets, profit)),
        Some(fee) => match fee.checked_mul(&price) {
            None => None,
            Some(cost) => match (
                l.commission.checked_add(&cost),
                assets.checked_sub(fee),
                profit.checked_sub(&cost),
            ) {
                (Some(c), Some(a), Some(pr)) => Some((c, a, pr)),
                _ => None,
            },
        },
    };
    match charged {
        None => None,
        Some((commission, assets, profit)) => {
            let settled = Ledger { funds, assets, commission, ..*l };
            match book(&settled, &profit, i) {
                None => None,
                Some(booked) => Some(
                    Ledger {
                        stopped: funds.lt(&Dec { mantissa: MIN_FUNDS, scale: 0 }),
                        ..booked
                    },
                ),
            }
        },
    }
}

fn decide(l: &Ledger, t: &TriggerSignal) -> (r: Ledger)
    ensures
        r == spec_decide(*l, *t),
{
    match l.position {
        Position::Flat => if t.signal_in > t.signal_out {
            Ledger { position: Position::PendingBuy, ..*l }
        } else {
            *l
        },
        Position::Long => if t.signal_in < t.signal_out {
            Ledger { position: Position::PendingSell, ..*l }
        } else {
            *l
        },
        _ => *l,
    }
}

fn step(
    p: &SimulateParams,
    l: &Ledger,
    i: usize,
    fts: &Option<u32>,
    ats: &Option<u32>,
) -> (r: Option<Ledger>)
    requires
        i < p.signals@.len(),
        ledger_bounds(*l, i as int),
        *fts == spec_trade_scale(p.min_price),
        *ats == spec_trade_scale(p.min_qty),
    ensures
        r == spec_step(p@, *l, i as int),
{
    reveal(spec_step);
    let last = i == p.signals.len() - 1;
    let executed = match l.position {
        Position::PendingBuy => buy(p, l, i, fts),
        Position::PendingSell => sell(p, l, i, ats),
        Position::Long => if last {
            sell(p, l, i, ats)
        } else {
            Some(*l)
        },
        Position::Flat => Some(*l),
    };
    match executed {
        None => None,
        Some(e) => if e.stopped {
            Some(e)
        } else {
            Some(decide(&e, &p.signals[i]))
        },
    }
}

/// `sum / count` rounded to 2 places, or zero where `count` is zero.
pub open spec fn spec_mean(sum: Dec, count: usize) -> Option<Dec> {
    if count == 0 {
        Some(dec_zero())
    } else {
        spec_round_div(sum, Dec { mantissa: count as i128, scale: 0 }, 2)
    }
}

/// The magnitude of `d`.
pub open spec fn spec_abs(d: Dec) -> Option<Dec> {
    if d.mantissa < 0 {
        spec_sub(dec_zero(), d)
    } else {
        Some(d)
    }
}

pub open spec fn loss_epsilon() -> Dec {
    Dec { mantissa: LOSS_EPSILON_MANTISSA, scale: LOSS_EPSILON_SCALE }
}

/// Gross profit over the magnitude of gross loss, rounded to 3 places; none
/// where that magnitude is within `f64::EPSILON` of zero.
pub open spec fn spec_profit_factor(total_profit: Dec, total_loss: Dec) -> Option<Option<Dec>> {
    match spec_abs(total_loss) {
        None => None,
        Some(magnitude) => if lt(loss_epsilon(), magnitude) {
            match spec_round_div(total_profit, magnitude, 3) {
                None => None,
                Some(v) => Some(Some(v)),
            }
        } else {
            Some(None)
        },
    }
}

/// Winning trades per hundred closed trades, rounded to 2 places; none without closed trades.
pub open spec fn spec_percent_profitable(wins: usize, closed: usize) -> Option<Option<Dec>> {
    if closed == 0 {
        Some(None)
    } else {
        match spec_round_div(
            Dec { mantissa: (wins * 100) as i128, scale: 0 },
            Dec { mantissa: closed as i128, scale: 0 },
            2,
        ) {
            None => None,
            Some(v) => Some(Some(v)),
        }
    }
}

/// Mean win over the magnitude of the mean loss, rounded to 3 places; zero where
/// the mean loss is zero.
pub open spec fn spec_ratio(avg_win: Dec, avg_loss: Dec) -> Option<Dec> {
    if avg_loss.mantissa == 0 {
        Some(dec_zero())
    } else {
        match spec_abs(avg_loss) {
            None => None,
            Some(magnitude) => spec_round_div(avg_win, magnitude, 3),
        }
    }
}

/// An extreme trade rounded to 2 places, or zero where there is none.
pub open spec fn spec_extreme(d: Option<Dec>) -> Option<Dec> {
    match d {
        None => Some(dec_zero()),
        Some(v) => spec_round_div(v, dec_one(), 2),
    }
}

/// The statistics of a finished ledger.
#[verifier::opaque]
pub open spec fn spec_report(l: Ledger, buy_and_hold: Dec) -> Option<PnL> {
    match (
        spec_add(l.gross_profit, l.gross_loss),
        spec_percent_profitable(l.wins, l.closed),
        spec_mean(l.gross_profit, l.wins),
        spec_mean(l.gross_loss, l.losses),
        spec_extreme(l.largest_win),
        spec_extreme(l.largest_loss),
        spec_mean(Dec { mantissa: l.win_ticks as i128, scale: 0 }, l.wins),
        spec_mean(Dec { mantissa: l.loss_ticks as i128, scale: 0 }, l.losses),
        spec_profit_factor(l.gross_profit, l.gross_loss),
    ) {
        (
            Some(net),
            Some(percent),
            Some(avg_win),
            Some(avg_loss),
            Some(largest_win),
            Some(largest_loss),
            Some(ticks_win),
            Some(ticks_loss),
            Some(factor),
        ) => match spec_ratio(avg_win, avg_loss) {
            None => None,
            Some(ratio) => Some(
                PnL {
                    net_profit: net,
                    gross_profit: l.gross_profit,
                    gross_loss: l.gross_loss,
                    buy_and_hold_return: buy_and_hold,
                    profit_factor: factor,
                    commission_paid: Some(l.commission),
                    total_closed_trades: l.closed,
                    num_winning_trades: l.wins,
                    num_losing_trades: l.losses,
                    percent_profitable: percent,
                    avg_winning_trade: avg_win,
                    avg_losing_trade: avg_loss,
                    ratio_avg_win_loss: ratio,
                    largest_winning_trade: largest_win,
                    largest_losing_trade: largest_loss,
                    avg_ticks_in_winning_trades: ticks_win,
                    avg_ticks_in_losing_trades: ticks_loss,
                },
            ),
        },
        _ => None,
    }
}

pub open spec fn bad_price(t: TriggerSignal) -> bool {
    t.price_open.mantissa <= 0 || t.price_close.mantissa <= 0
}

pub open spec fn has_bad_price(signals: Seq<TriggerSignal>) -> bool {
    exists|i: int| 0 <= i < signals.len() && bad_price(#[trigger] signals[i])
}

/// What is wrong with `p`, if anything.
pub open spec fn spec_config_error(p: SimModel) -> Option<SimulationError> {
    if p.signals.len() == 0 {
        Some(SimulationError::EmptySignals)
    } else if p.asset_scale == 0 || p.funds_scale == 0 {
        Some(SimulationError::InvalidScale)
    } else if has_bad_price(p.signals) {
        Some(SimulationError::InvalidPrice)
    } else {
        None
    }
}

/// The outcome of a simulation: the configuration's error, or the report of the
/// replay, or [`SimulationError::Overflow`] where an amount left the range of [`Dec`].
pub open spec fn spec_simulate(p: SimModel) -> Result<PnL, SimulationError> {
    match spec_config_error(p) {
        Some(e) => Err(e),
        None => {
            let n = p.signals.len();
            match (
                spec_buy_and_hold_return(
                    p.initial_capital,
                    p.exchange_fee,
                    p.signals[0].price_open,
                    p.signals[n - 1].price_close,
                    p.asset_scale,
                    p.funds_scale,
                    spec_trade_scale(p.min_price),
                    spec_trade_scale(p.min_qty),
                ),
                spec_run(p, n),
            ) {
                (Some(bh), Some(l)) => match spec_report(l, bh) {
                    Some(r) => Ok(r),
                    None => Err(SimulationError::Overflow),
                },
                _ => Err(SimulationError::Overflow),
            }
        },
    }
}

fn abs_dec(d: &Dec) -> (r: Option<Dec>)
    ensures
        r == spec_abs(*d),
        r matches Some(v) ==> (d.mantissa != 0 ==> v.mantissa > 0),
{
    proof {
        vstd::arithmetic::power::lemma_pow0(10);
    }
    if d.mantissa < 0 {
        Dec::from_int(0).checked_sub(d)
    } else {
        Some(*d)
    }
}

fn mean(sum: &Dec, count: usize) -> (r: Option<Dec>)
    ensures
        r == spec_mean(*sum, count),
{
    if count == 0 {
        Some(Dec::from_int(0))
    } else {
        sum.checked_round_div(&Dec::from_int(count as i128), 2)
    }
}

/// Gross profit over the magnitude of gross loss, rounded to 3 places (outer
/// `None`: an amount left the range of [`Dec`]).
pub fn profit_factor(total_profit: &Dec, total_loss: &Dec) -> (r: Option<Option<Dec>>)
    ensures
        r == spec_profit_factor(*total_profit, *total_loss),
{
    match abs_dec(total_loss) {
        None => None,
        Some(magnitude) => {
            let eps = Dec { mantissa: LOSS_EPSILON_MANTISSA, scale: LOSS_EPSILON_SCALE };
            if eps.lt(&magnitude) {
                proof {
                    lemma_above_nonneg(eps, magnitude);
                }
                match total_profit.checked_round_div(&magnitude, 3) {
                    None => None,
                    Some(v) => Some(Some(v)),
                }
            } else {
                Some(None)
            }
        },
    }
}

fn report(l: &Ledger, buy_and_hold: &Dec) -> (r: Option<PnL>)
    ensures
        r == spec_report(*l, *buy_and_hold),
{
    reveal(spec_report);
    let percent = if l.closed == 0 {
        Some(None)
    } else {
        match Dec::from_int((l.wins as i128) * 100).checked_round_div(
            &Dec::from_int(l.closed as i128),
            2,
        ) {
            None => None,
            Some(v) => Some(Some(v)),
        }
    };
    let extreme_win = match &l.largest_win {
        None => Some(Dec::from_int(0)),
        Some(v) => v.checked_round_div(&Dec::from_int(1), 2),
    };
    let extreme_loss = match &l.largest_loss {
        None => Some(Dec::from_int(0)),
        Some(v) => v.checked_round_div(&Dec::from_int(1), 2),
    };
    match (
        l.gross_profit.checked_add(&l.gross_loss),
        percent,
        mean(&l.gross_profit, l.wins),
        mean(&l.gross_loss, l.losses),
        extreme_win,
        extreme_loss,
        mean(&Dec::from_int(l.win_ticks as i128), l.wins),
        mean(&Dec::from_int(l.loss_ticks as i128), l.losses),
        profit_factor(&l.gross_profit, &l.gross_loss),
    ) {
        (
            Some(net),
            Some(percent),
            Some(avg_win),
            Some(avg_loss),
            Some(largest_win),
            Some(largest_loss),
            Some(ticks_win),
            Some(ticks_loss),
            Some(factor),
        ) => {
            let ratio = if avg_loss.mantissa == 0 {
                Some(Dec::from_int(0))
            } else {
                match abs_dec(&avg_loss) {
                    None => None,
                    Some(magnitude) => avg_win.checked_round_div(&magnitude, 3),
                }
            };
            match ratio {
                None => None,
                Some(ratio) => Some(
                    PnL {
                        net_profit: net,
                        gross_profit: l.gross_profit,
                        gross_loss: l.gross_loss,
                        buy_and_hold_return: *buy_and_hold,
                        profit_factor: factor,
                        commission_paid: Some(l.commission),
                        total_closed_trades: l.closed,
                        num_winning_trades: l.wins,
                        num_losing_trades: l.losses,
                        percent_profitable: percent,
                        avg_winning_trade: avg_win,
                        avg_losing_trade: avg_loss,
                        ratio_avg_win_loss: ratio,
                        largest_winning_trade: largest_win,
                        largest_losing_trade: largest_loss,
                        avg_ticks_in_winning_trades: ticks_win,
                        avg_ticks_in_losing_trades: ticks_loss,
                    },
                ),
            }
        },
        _ => None,
    }
}

fn config_error(p: &SimulateParams) -> (r: Option<SimulationError>)
    ensures
        r == spec_config_error(p@),
{
    let n = p.signals.len();
    if n == 0 {
        return Some(SimulationError::EmptySignals);
    }
    if p.asset_scale == 0 || p.funds_scale == 0 {
        return Some(SimulationError::InvalidScale);
    }
    let mut i: usize = 0;
    while i < n
        invariant
            n == p.signals@.len(),
            n > 0,
            p.asset_scale != 0 && p.funds_scale != 0,
            i <= n,
            forall|j: int| 0 <= j < i ==> !bad_price(#[trigger] p.signals@[j]),
        decreases n - i,
    {
        let t = &p.signals[i];
        if t.price_open.mantissa <= 0 || t.price_close.mantissa <= 0 {
            assert(bad_price(p.signals@[i as int]));
            assert(has_bad_price(p.signals@));
            return Some(SimulationError::InvalidPrice);
        }
        i = i + 1;
    }
    None
}

/// Replays `sim_params.signals`: a purchase is due at the open after `signal_in`
/// rises above `signal_out` while flat, a sale at the open after it falls below
/// while holding, and the last tick closes a position still open. Stops after
/// a sale that leaves less than [`MIN_FUNDS`]. Returns the statistics of the
/// closed trades; errs on a malformed configuration, or where an amount leaves
/// the range of [`Dec`].
pub fn simulate(sim_params: SimulateParams) -> (r: Result<PnL, SimulationError>)
    ensures
        r == spec_simulate(sim_params@),
{
    let p = &sim_params;
    match config_error(p) {
        Some(e) => return Err(e),
        None => {},
    }
    let n = p.signals.len();
    let asset_trade_scale = p.get_asset_trade_scale();
    let funds_trade_scale = p.get_funds_trade_scale();
    let bh = buy_and_hold_return(
        &p.initial_capital,
        &p.exchange_fee,
        &p.signals[0].price_open,
        &p.signals[n - 1].price_close,
        p.asset_scale,
        p.funds_scale,
        &funds_trade_scale,
        &asset_trade_scale,
    );
    let bh = match bh {
        None => return Err(SimulationError::Overflow),
        Some(v) => v,
    };
    let mut l = Ledger {
        position: Position::Flat,
        funds: p.initial_capital,
        assets: Dec::from_int(0),
        cost_basis: Dec::from_int(0),
        commission: Dec::from_int(0),
        anchor: 0,
        closed: 0,
        wins: 0,
        losses: 0,
        gross_profit: Dec::from_int(0),
        gross_loss: Dec::from_int(0),
        largest_win: None,
        largest_loss: None,
        win_ticks: 0,
        loss_ticks: 0,
        stopped: false,
    };
    let mut i: usize = 0;
    while i < n && !l.stopped
        invariant
            n == p.signals@.len(),
            i <= n,
            spec_run(p@, i as nat) == Some(l),
            ledger_bounds(l, i as int),
            asset_trade_scale == spec_trade_scale(p.min_qty),
            funds_trade_scale == spec_trade_scale(p.min_price),
            spec_config_error(p@) is None,
            p@ == sim_params@,
            spec_buy_and_hold_return(
                p.initial_capital,
                p.exchange_fee,
                p.signals@[0].price_open,
                p.signals@[n - 1].price_close,
                p.asset_scale,
                p.funds_scale,
                funds_trade_scale,
                asset_trade_scale,
            ) == Some(bh),
        decreases n - i,
    {
        proof {
            lemma_step_bounds(p@, l, i as int);
        }
        match step(p, &l, i, &funds_trade_scale, &asset_trade_scale) {
            None => {
                proof {
                    lemma_run_fails(p@, (i + 1) as nat, n as nat);
                }
                return Err(SimulationError::Overflow);
            },
            Some(next) => {
                l = next;
            },
        }
        i = i + 1;
    }
    proof {
        if i < n {
            lemma_run_stays(p@, i as nat, n as nat);
        }
    }
    match report(&l, &bh) {
        None => Err(SimulationError::Overflow),
        Some(r) => Ok(r),
    }
}

} // verus!
