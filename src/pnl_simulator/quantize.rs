//! Exchange-style quantization of a purchase and of a sale.
//!
//! Quantities and amounts are cut toward zero, never rounded, at the scales the
//! exchange allows. A purchase pays its fee in funds; a sale pays it in the asset.
use crate::decimal::{
    le, lemma_trunc_never_up, pow10, same_value, spec_add, spec_div_trunc, spec_mul, spec_sub,
    spec_trunc, Dec,
};
use vstd::prelude::*;

verus! {

/// What a purchase buys and what it costs.
#[derive(Clone, Copy, Debug, PartialEq, Eq, Structural)]
pub struct PurchaseInfo {
    /// The quantity of the asset bought.
    pub asset_qty: Dec,
    /// The funds spent on it, fee not included.
    pub cost_before_fee: Dec,
    /// The fee, in funds, where a fee rate is set.
    pub total_fee: Option<Dec>,
}

/// What a sale sells and what it brings in.
#[derive(Clone, Copy, Debug, PartialEq, Eq, Structural)]
pub struct SaleInfo {
    /// The quantity of the asset sold.
    pub assets_sold: Dec,
    /// The funds received, fee not deducted.
    pub sale_before_fee: Dec,
    /// The fee, in the asset, where a fee rate is set.
    pub fee_asset_total: Option<Dec>,
}

/// `x * (1 - fee)` cut to `k` places, or `x` where no fee rate is set.
pub open spec fn spec_after_fee(x: Dec, fee: Option<Dec>, k: u32) -> Option<Dec> {
    match fee {
        None => Some(x),
        Some(f) => match spec_mul(x, f) {
            None => None,
            Some(part) => match spec_sub(x, part) {
                None => None,
                Some(rest) => Some(spec_trunc(rest, k)),
            },
        },
    }
}

/// `x * fee` where a fee rate is set.
pub open spec fn spec_fee_of(x: Dec, fee: Option<Dec>) -> Option<Option<Dec>> {
    match fee {
        None => Some(None),
        Some(f) => match spec_mul(x, f) {
            None => None,
            Some(v) => Some(Some(v)),
        },
    }
}

/// The quantity and cost before the order-value constraint.
pub open spec fn spec_first_fill(
    funds: Dec,
    price: Dec,
    fee: Option<Dec>,
    asset_scale: u32,
    funds_scale: u32,
) -> Option<(Dec, Dec)> {
    match spec_after_fee(funds, fee, funds_scale) {
        None => None,
        Some(available) => match spec_div_trunc(available, price, asset_scale) {
            None => None,
            Some(qty) => match spec_mul(qty, price) {
                None => None,
                Some(cost) => Some((qty, cost)),
            },
        },
    }
}

/// Stage-Purchase: spend `funds` on the asset at `price`.
#[verifier::opaque]
pub open spec fn spec_stage_purchase(
    funds: Dec,
    price: Dec,
    fee: Option<Dec>,
    asset_scale: u32,
    funds_scale: u32,
    funds_trade_scale: Option<u32>,
) -> Option<PurchaseInfo> {
    match spec_first_fill(funds, price, fee, asset_scale, funds_scale) {
        None => None,
        Some((qty0, cost0)) => {
            let filled: Option<(Dec, Dec)> = match funds_trade_scale {
                None => Some((qty0, cost0)),
                Some(t) => {
                    let cost = spec_trunc(cost0, t);
                    match spec_div_trunc(cost, price, asset_scale) {
                        None => None,
                        Some(qty) => Some((qty, cost)),
                    }
                },
            };
            match filled {
                None => None,
                Some((qty, cost)) => match spec_fee_of(cost, fee) {
                    None => None,
                    Some(total_fee) => Some(
                        PurchaseInfo { asset_qty: qty, cost_before_fee: cost, total_fee },
                    ),
                },
            }
        },
    }
}

/// Stage-Sale: sell `asset_qty` of the asset at `price`.
#[verifier::opaque]
pub open spec fn spec_stage_sale(
    asset_qty: Dec,
    price: Dec,
    fee: Option<Dec>,
    asset_scale: u32,
    funds_scale: u32,
    asset_trade_scale: Option<u32>,
) -> Option<SaleInfo> {
    match spec_after_fee(asset_qty, fee, asset_scale) {
        None => None,
        Some(net) => {
            let sold = match asset_trade_scale {
                None => net,
                Some(t) => spec_trunc(net, t),
            };
            match spec_mul(sold, price) {
                None => None,
                Some(gross) => match spec_fee_of(sold, fee) {
                    None => None,
                    Some(fee_asset_total) => Some(
                        SaleInfo {
                            assets_sold: sold,
                            sale_before_fee: spec_trunc(gross, funds_scale),
                            fee_asset_total,
                        },
                    ),
                },
            }
        },
    }
}

/// Truncation invariant of a purchase: where the exchange constrains the order
/// value to `t` decimal places, the cost has at most `t` decimal places and is
/// never more than the cost before that constraint.
pub proof fn lemma_purchase_cost_quantized(
    funds: Dec,
    price: Dec,
    fee: Option<Dec>,
    asset_scale: u32,
    funds_scale: u32,
    t: u32,
)
    requires
        spec_stage_purchase(funds, price, fee, asset_scale, funds_scale, Some(t)) is Some,
    ensures
        ({
            let purchase = spec_stage_purchase(
                funds,
                price,
                fee,
                asset_scale,
                funds_scale,
                Some(t),
            ).unwrap();
            let (qty0, cost0) = spec_first_fill(
                funds,
                price,
                fee,
                asset_scale,
                funds_scale,
            ).unwrap();
            &&& purchase.cost_before_fee.scale <= t
            &&& cost0.mantissa >= 0 ==> le(purchase.cost_before_fee, cost0)
        }),
{
    reveal(spec_stage_purchase);
    let (qty0, cost0) = spec_first_fill(funds, price, fee, asset_scale, funds_scale).unwrap();
    lemma_trunc_never_up(cost0, t);
}

/// Round trip at no cost: a purchase without fee and without trade constraints,
/// sold at once at the same price, gives back exactly the quantity bought and
/// exactly what it cost, so that the funds come back whole. This needs the cost
/// to fit `funds_scale` (`asset_scale + price.scale <= funds_scale`); where it
/// does not, the proceeds are cut and come back short.
pub proof fn lemma_round_trip(funds: Dec, price: Dec, asset_scale: u32, funds_scale: u32)
    requires
        spec_stage_purchase(funds, price, None, asset_scale, funds_scale, None) is Some,
        asset_scale + price.scale <= funds_scale,
    ensures
        ({
            let purchase = spec_stage_purchase(
                funds,
                price,
                None,
                asset_scale,
                funds_scale,
                None,
            ).unwrap();
            let sale = spec_stage_sale(
                purchase.asset_qty,
                price,
                None,
                asset_scale,
                funds_scale,
                None,
            );
            &&& sale matches Some(sale) && {
                &&& sale.assets_sold == purchase.asset_qty
                &&& sale.sale_before_fee == purchase.cost_before_fee
                &&& sale.fee_asset_total is None
                &&& purchase.total_fee is None
                &&& spec_sub(funds, purchase.cost_before_fee) matches Some(rest) ==> spec_add(
                    rest,
                    sale.sale_before_fee,
                ) matches Some(back) && same_value(back, funds)
            }
        }),
{
    reveal(spec_stage_purchase);
    reveal(spec_stage_sale);
    let purchase = spec_stage_purchase(funds, price, None, asset_scale, funds_scale, None).unwrap();
    let cost = purchase.cost_before_fee;
    assert(cost.scale == asset_scale + price.scale);
    match spec_sub(funds, cost) {
        None => {},
        Some(rest) => {
            let s = rest.scale as nat;
            vstd::arithmetic::power::lemma_pow0(10);
            vstd::arithmetic::power::lemma_pow_adds(10, funds.scale as nat, (s - funds.scale) as nat);
            let x = funds.mantissa * pow10((s - funds.scale) as nat);
            assert(rest.mantissa * pow10(0) == rest.mantissa);
            assert(x * pow10(funds.scale as nat) == funds.mantissa * pow10(s)) by (nonlinear_arith)
                requires
                    x == funds.mantissa * pow10((s - funds.scale) as nat),
                    pow10(s) == pow10(funds.scale as nat) * pow10((s - funds.scale) as nat),
            ;
        },
    }
}

fn after_fee(x: &Dec, fee: &Option<Dec>, k: u32) -> (r: Option<Dec>)
    ensures
        r == spec_after_fee(*x, *fee, k),
{
    match fee {
        None => Some(*x),
        Some(f) => match x.checked_mul(f) {
            None => None,
            Some(part) => match x.checked_sub(&part) {
                None => None,
                Some(rest) => Some(rest.trunc_with_scale(k)),
            },
        },
    }
}

fn fee_of(x: &Dec, fee: &Option<Dec>) -> (r: Option<Option<Dec>>)
    ensures
        r == spec_fee_of(*x, *fee),
{
    match fee {
        None => Some(None),
        Some(f) => match x.checked_mul(f) {
            None => None,
            Some(v) => Some(Some(v)),
        },
    }
}

/// Stage-Purchase: the fee comes off the funds first (cut to `funds_scale`),
/// the quantity is what the rest buys at `price` (cut to `asset_scale`), and
/// where the exchange constrains the order value (`funds_trade_scale`) the
/// cost is cut to that scale and the quantity recomputed from it. `None`
/// where `price` is zero or an amount leaves the range of [`Dec`].
pub fn stage_purchase(
    funds: &Dec,
    price: &Dec,
    exchange_fee: &Option<Dec>,
    asset_scale: u32,
    funds_scale: u32,
    funds_trade_scale: &Option<u32>,
) -> (r: Option<PurchaseInfo>)
    ensures
        r == spec_stage_purchase(
            *funds,
            *price,
            *exchange_fee,
            asset_scale,
            funds_scale,
            *funds_trade_scale,
        ),
{
    reveal(spec_stage_purchase);
    let available = match after_fee(funds, exchange_fee, funds_scale) {
        None => return None,
        Some(v) => v,
    };
    let qty0 = match available.checked_div_trunc(price, asset_scale) {
        None => return None,
        Some(v) => v,
    };
    let cost0 = match qty0.checked_mul(price) {
        None => return None,
        Some(v) => v,
    };
    let (qty, cost) = match funds_trade_scale {
        None => (qty0, cost0),
        Some(t) => {
            let cost = cost0.trunc_with_scale(*t);
            match cost.checked_div_trunc(price, asset_scale) {
                None => return None,
                Some(qty) => (qty, cost),
            }
        },
    };
    match fee_of(&cost, exchange_fee) {
        None => None,
        Some(total_fee) => Some(PurchaseInfo { asset_qty: qty, cost_before_fee: cost, total_fee }),
    }
}

/// Stage-Sale: the fee comes off the quantity first (cut to `asset_scale`),
/// the quantity is cut to the exchange's lot scale where one is set, and the
/// proceeds are cut to `funds_scale`. The fee is charged in the asset. `None`
/// where an amount leaves the range of [`Dec`].
pub fn stage_sale(
    asset_qty: &Dec,
    price: &Dec,
    exchange_fee: &Option<Dec>,
    asset_scale: u32,
    funds_scale: u32,
    asset_trade_scale: &Option<u32>,
) -> (r: Option<SaleInfo>)
    ensures
        r == spec_stage_sale(
            *asset_qty,
            *price,
            *exchange_fee,
            asset_scale,
            funds_scale,
            *asset_trade_scale,
        ),
{
    reveal(spec_stage_sale);
    let net = match after_fee(asset_qty, exchange_fee, asset_scale) {
        None => return None,
        Some(v) => v,
    };
    let sold = match asset_trade_scale {
        None => net,
        Some(t) => net.trunc_with_scale(*t),
    };
    let gross = match sold.checked_mul(price) {
        None => return None,
        Some(v) => v,
    };
    match fee_of(&sold, exchange_fee) {
        None => None,
        Some(fee_asset_total) => Some(
            SaleInfo {
                assets_sold: sold,
                sale_before_fee: gross.trunc_with_scale(funds_scale),
                fee_asset_total,
            },
        ),
    }
}

} // verus!
