use oscillatorsetups::decimal::Dec;
use oscillatorsetups::pnl_simulator::pnl::buy_and_hold_return;
use oscillatorsetups::pnl_simulator::quantize::{stage_purchase, stage_sale};

fn d(mantissa: i128, scale: u32) -> Dec {
    Dec { mantissa, scale }
}

fn same(a: Dec, b: Dec) -> bool {
    let x = a.mantissa.checked_mul(10i128.pow(b.scale));
    let y = b.mantissa.checked_mul(10i128.pow(a.scale));
    x.is_some() && x == y
}

#[test]
fn purchase_with_fee_and_order_value_scale() {
    let p = stage_purchase(&d(10000, 0), &d(163926, 2), &Some(d(75, 5)), 8, 8, &Some(0)).unwrap();
    assert!(same(p.asset_qty, d(60954333, 7)));
    assert!(same(p.cost_before_fee, d(9992, 0)));
    assert!(same(p.total_fee.unwrap(), d(7494, 3)));
    assert_eq!(p.cost_before_fee.scale, 0);
}

#[test]
fn purchase_without_order_value_scale() {
    let p = stage_purchase(&d(10000, 0), &d(163926, 2), &Some(d(75, 5)), 8, 8, &None).unwrap();
    assert!(same(p.asset_qty, d(609573832, 8)));
    assert!(same(p.cost_before_fee, d(99924999984432, 10)));
}

#[test]
fn sale_with_fee_and_lot_scale() {
    let s = stage_sale(&d(60954333, 7), &d(173430, 2), &Some(d(75, 5)), 8, 8, &Some(2)).unwrap();
    assert!(same(s.assets_sold, d(609, 2)));
    assert!(same(s.sale_before_fee, d(10561887, 3)));
    assert!(same(s.fee_asset_total.unwrap(), d(45675, 7)));
}

#[test]
fn purchase_at_zero_price_is_refused() {
    assert!(stage_purchase(&d(10000, 0), &d(0, 2), &None, 8, 8, &None).is_none());
}

#[test]
fn round_trip_without_cost_returns_inputs() {
    let funds = d(1000, 0);
    let price = d(125, 1);
    let p = stage_purchase(&funds, &price, &None, 3, 8, &None).unwrap();
    let s = stage_sale(&p.asset_qty, &price, &None, 3, 8, &None).unwrap();
    assert_eq!(s.assets_sold, p.asset_qty);
    assert_eq!(s.sale_before_fee, p.cost_before_fee);
    assert!(s.fee_asset_total.is_none());
    let back = funds.checked_sub(&p.cost_before_fee).unwrap().checked_add(&s.sale_before_fee).unwrap();
    assert!(same(back, funds));
    assert!(same(p.asset_qty, d(80, 0)));
}

#[test]
fn round_trip_comes_back_short_when_cost_exceeds_funds_scale() {
    let price = d(3, 1);
    let p = stage_purchase(&d(1, 0), &price, &None, 1, 1, &None).unwrap();
    let s = stage_sale(&p.asset_qty, &price, &None, 1, 1, &None).unwrap();
    assert!(same(p.cost_before_fee, d(99, 2)));
    assert!(same(s.sale_before_fee, d(9, 1)));
}

#[test]
fn order_value_truncation_never_rounds_up() {
    for scale in 0..4u32 {
        let p = stage_purchase(&d(10000, 0), &d(163926, 2), &None, 8, 8, &Some(scale)).unwrap();
        let unconstrained = stage_purchase(&d(10000, 0), &d(163926, 2), &None, 8, 8, &None).unwrap();
        assert!(p.cost_before_fee.scale <= scale);
        assert!(!unconstrained.cost_before_fee.lt(&p.cost_before_fee));
    }
}

#[test]
fn buy_and_hold_baseline() {
    let r = buy_and_hold_return(
        &d(10000, 0),
        &Some(d(75, 5)),
        &d(163926, 2),
        &d(173430, 2),
        8,
        8,
        &Some(0),
        &Some(2),
    )
    .unwrap();
    assert_eq!(r, d(56389, 2));
}
