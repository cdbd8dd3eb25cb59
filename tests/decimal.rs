use oscillatorsetups::decimal::Dec;

fn d(mantissa: i128, scale: u32) -> Dec {
    Dec { mantissa, scale }
}

fn same(a: Dec, b: Dec) -> bool {
    let x = a.mantissa.checked_mul(10i128.pow(b.scale));
    let y = b.mantissa.checked_mul(10i128.pow(a.scale));
    x.is_some() && x == y
}

#[test]
fn add_aligns_scales() {
    assert_eq!(d(15, 1).checked_add(&d(25, 2)), Some(d(175, 2)));
}

#[test]
fn sub_is_exact() {
    assert_eq!(d(1, 0).checked_sub(&d(1, 3)), Some(d(999, 3)));
}

#[test]
fn mul_adds_scales() {
    assert_eq!(d(15, 1).checked_mul(&d(25, 2)), Some(d(375, 3)));
}

#[test]
fn trunc_cuts_toward_zero() {
    assert_eq!(d(12399, 4).trunc_with_scale(2), d(123, 2));
    assert_eq!(d(-12399, 4).trunc_with_scale(2), d(-123, 2));
    assert_eq!(d(12, 1).trunc_with_scale(4), d(12, 1));
    assert_eq!(d(5, 60).trunc_with_scale(0), d(0, 0));
}

#[test]
fn div_trunc_cuts_toward_zero() {
    assert_eq!(d(10, 0).checked_div_trunc(&d(3, 0), 2), Some(d(333, 2)));
    assert_eq!(d(-10, 0).checked_div_trunc(&d(3, 0), 2), Some(d(-333, 2)));
    assert_eq!(d(10, 0).checked_div_trunc(&d(0, 3), 2), None);
}

#[test]
fn round_div_halves_to_even() {
    let one = d(1, 0);
    assert_eq!(d(125, 3).checked_round_div(&one, 2), Some(d(12, 2)));
    assert_eq!(d(135, 3).checked_round_div(&one, 2), Some(d(14, 2)));
    assert_eq!(d(-125, 3).checked_round_div(&one, 2), Some(d(-12, 2)));
    assert_eq!(d(2, 0).checked_round_div(&d(3, 0), 3), Some(d(667, 3)));
}

#[test]
fn order_is_by_value() {
    assert!(d(15, 1).lt(&d(151, 2)));
    assert!(!d(150, 2).lt(&d(15, 1)));
    assert!(!d(15, 1).lt(&d(150, 2)));
    assert!(d(-1, 0).lt(&d(1, 30)));
    assert!(d(i128::MAX, 0).lt(&d(i128::MAX, 0).checked_add(&d(0, 0)).unwrap()) == false);
    assert!(d(1, 0).lt(&d(i128::MAX, 1)));
    assert!(same(d(1, 0), d(1000, 3)));
}

#[test]
fn decimal_places_strips_trailing_zeros() {
    assert_eq!(d(10, 3).decimal_places(), 2);
    assert_eq!(d(1, 3).decimal_places(), 3);
    assert_eq!(d(10, 0).decimal_places(), 0);
    assert_eq!(d(100, 1).decimal_places(), 0);
    assert_eq!(d(0, 5).decimal_places(), 0);
}

#[test]
fn overflow_is_reported() {
    assert_eq!(d(i128::MAX, 0).checked_mul(&d(2, 0)), None);
    assert_eq!(d(i128::MAX, 0).checked_add(&d(1, 0)), None);
    assert_eq!(d(i128::MAX / 2, 0).checked_add(&d(1, 1)), None);
    assert_eq!(d(1, u32::MAX).checked_mul(&d(1, 1)), None);
}
