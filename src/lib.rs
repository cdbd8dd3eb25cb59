//! Backtesting of a momentum-oscillator trading signal.
//!
//! The library replays buy and sell signals against a price series with
//! exchange-style quantization of quantities and amounts, derives the usual
//! performance statistics, and searches a grid of oscillator parameters for
//! the configurations with the best net profit.
pub mod decimal;
pub mod exchange;
pub mod oscillators;
pub mod pnl_simulator;
pub mod utils;
