//! Price data that the oscillators read.
use vstd::prelude::*;

verus! {

/// High, low and close of one tick, as integers in one unit shared by the
/// whole series (for instance the exchange's price increment).
#[derive(Clone, Copy, Debug, PartialEq, Eq, Structural)]
pub struct Hlc {
    pub price_high: i64,
    pub price_low: i64,
    pub price_close: i64,
}

impl Hlc {
    /// The prices of one tick.
    pub fn new(price_high: i64, price_low: i64, price_close: i64) -> (r: Self)
        ensures
            r.price_high == price_high,
            r.price_low == price_low,
            r.price_close == price_close,
    {
        Hlc { price_high, price_low, price_close }
    }
}

} // verus!
