//! Candle data as the library reads it, and the parameters of a request for it.
pub mod chart_data;
