//! Replay of trading signals and the search over oscillator parameters.
pub mod models;
pub mod pnl;
pub mod quantize;
pub mod ranking;
pub mod stochastic;
