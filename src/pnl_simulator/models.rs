//! The records that a simulation reads and writes.
use crate::decimal::Dec;
use vstd::prelude::*;

verus! {

/// One tick as the simulator reads it.
///
/// - `signal_in`: entry is due when it is above `signal_out`.
/// - `signal_out`: exit is due when it is above `signal_in`.
/// - `time_open`, `time_close`: Unix times of the bar, in milliseconds.
/// - `price_open`, `price_close`: prices at the open and at the close of the bar.
#[derive(Clone, Copy, Debug, PartialEq, Eq, Structural)]
pub struct TriggerSignal {
    pub signal_in: i128,
    pub signal_out: i128,
    pub time_open: u64,
    pub time_close: u64,
    pub price_open: Dec,
    pub price_close: Dec,
}

/// Performance of a simulated strategy.
///
/// - `net_profit`: the sum of all closed trades' profits.
/// - `gross_profit`, `gross_loss`: the sums of the winning and of the losing trades.
/// - `buy_and_hold_return`: the baseline of one purchase at the first open and one sale at the last close.
/// - `profit_factor`: gross profit over the magnitude of gross loss; none without losses.
/// - `commission_paid`: all fees, in funds.
/// - `total_closed_trades`, `num_winning_trades`, `num_losing_trades`: trade counts.
/// - `percent_profitable`: winning trades per hundred closed trades; none without closed trades.
/// - `avg_winning_trade`, `avg_losing_trade`: mean profit of each class.
/// - `ratio_avg_win_loss`: mean win over the magnitude of the mean loss.
/// - `largest_winning_trade`, `largest_losing_trade`: the extremes of each class.
/// - `avg_ticks_in_winning_trades`, `avg_ticks_in_losing_trades`: mean holding time in ticks.
#[derive(Clone, Copy, Debug, PartialEq, Eq, Structural)]
pub struct PnL {
    pub net_profit: Dec,
    pub gross_profit: Dec,
    pub gross_loss: Dec,
    pub buy_and_hold_return: Dec,
    pub profit_factor: Option<Dec>,
    pub commission_paid: Option<Dec>,
    pub total_closed_trades: usize,
    pub num_winning_trades: usize,
    pub num_losing_trades: usize,
    pub percent_profitable: Option<Dec>,
    pub avg_winning_trade: Dec,
    pub avg_losing_trade: Dec,
    pub ratio_avg_win_loss: Dec,
    pub largest_winning_trade: Dec,
    pub largest_losing_trade: Dec,
    pub avg_ticks_in_winning_trades: Dec,
    pub avg_ticks_in_losing_trades: Dec,
}

} // verus!
