//! Momentum oscillators over a price series.
//!
//! Oscillator values are fixed-point integers: [`sma::SIGNAL_ONE`] stands for 1.
pub mod models;
pub mod sma;
pub mod stochastic;
