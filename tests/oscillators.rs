use oscillatorsetups::oscillators::models::Hlc;
use oscillatorsetups::oscillators::sma::{sma_for_tick, sma_for_ticks, SIGNAL_ONE};
use oscillatorsetups::oscillators::stochastic::{
    d_for_tick, d_for_ticks, k_for_tick, k_for_ticks, stochastic, StochValues,
};

fn units(values: &[i128]) -> Vec<Option<i128>> {
    values.iter().map(|v| Some(v * SIGNAL_ONE)).collect()
}

fn as_f64(v: i128) -> f64 {
    v as f64 / SIGNAL_ONE as f64
}

#[test]
fn sma_for_tick_examples() {
    let data = units(&[10, 20, 30, 40, 50, 60, 70]);
    assert_eq!(sma_for_tick(&data, 3, 3), Some(30 * SIGNAL_ONE));
    assert_eq!(sma_for_tick(&data, 2, 3), Some(20 * SIGNAL_ONE));
    assert_eq!(sma_for_tick(&data, 1, 3), None);
}

#[test]
fn sma_for_ticks_example() {
    let data = units(&[1, 2, 3, 4, 5, 6]);
    let expected = vec![None, None, Some(2 * SIGNAL_ONE), Some(3 * SIGNAL_ONE), Some(4 * SIGNAL_ONE), Some(5 * SIGNAL_ONE)];
    assert_eq!(sma_for_ticks(&data, 3), expected);
}

#[test]
fn sma_mean_is_cut_toward_zero() {
    assert_eq!(sma_for_tick(&[Some(1), Some(2)], 1, 2), Some(1));
    assert_eq!(sma_for_tick(&[Some(-1), Some(-2)], 1, 2), Some(-1));
}

#[test]
fn sma_undefined_value_propagates() {
    let data = vec![Some(1), None, Some(3), Some(4), Some(5)];
    let r = sma_for_ticks(&data, 2);
    assert_eq!(r, vec![None, None, None, Some(3), Some(4)]);
}

#[test]
fn sma_length_and_leading_undefined() {
    for period in 1..6usize {
        let data = units(&[3, 1, 4, 1, 5, 9, 2, 6]);
        let r = sma_for_ticks(&data, period);
        assert_eq!(r.len(), data.len());
        for (i, v) in r.iter().enumerate() {
            if i + 1 < period {
                assert_eq!(*v, None);
            } else {
                assert!(v.is_some());
            }
        }
    }
    assert!(sma_for_ticks(&[], 3).is_empty());
}

#[test]
fn k_for_tick_example() {
    let data = vec![Hlc::new(100, 90, 95), Hlc::new(110, 100, 105), Hlc::new(120, 110, 115)];
    assert_eq!(k_for_tick(&data, 2, 3), Some(833333333333));
    assert_eq!(k_for_tick(&data, 1, 3), None);
    assert_eq!(k_for_ticks(&data, 3), vec![None, None, Some(833333333333)]);
}

#[test]
fn k_on_increasing_series_is_between_0_and_100() {
    let data: Vec<Hlc> = (0..30i64).map(|i| Hlc::new(1000 + 7 * i + 5, 1000 + 7 * i, 1000 + 7 * i + 3)).collect();
    for k_length in 2..10u16 {
        for index in (k_length as usize - 1)..data.len() {
            let k = k_for_tick(&data, index, k_length).unwrap();
            assert!(0 <= k && k <= 100 * SIGNAL_ONE);
        }
    }
}

#[test]
fn k_on_flat_window_is_undefined() {
    let data = vec![Hlc::new(50, 50, 50); 5];
    assert_eq!(k_for_tick(&data, 4, 3), None);
    assert_eq!(k_for_tick(&data, 4, 5), None);
    let mut data = data;
    data[0] = Hlc::new(60, 40, 45);
    assert_eq!(k_for_tick(&data, 4, 3), None);
    assert!(k_for_tick(&data, 4, 5).is_some());
}

#[test]
fn d_for_tick_example() {
    let k_values = units(&[10, 20, 30, 40]);
    assert_eq!(d_for_tick(&k_values, 3, 3), Some(30 * SIGNAL_ONE));
    assert_eq!(d_for_tick(&k_values, 1, 3), None);
}

#[test]
fn d_for_ticks_example() {
    let k_values = units(&[10, 20, 30, 40, 50, 60]);
    let expected = vec![None, None, Some(20 * SIGNAL_ONE), Some(30 * SIGNAL_ONE), Some(40 * SIGNAL_ONE), Some(50 * SIGNAL_ONE)];
    assert_eq!(d_for_ticks(&k_values, 3), expected);
}

#[test]
fn hlc_new_keeps_prices() {
    let h = Hlc::new(179295, 176402, 177847);
    assert_eq!((h.price_high, h.price_low, h.price_close), (179295, 176402, 177847));
}

#[test]
fn stochastic_fixture() {
    let price_data = vec![
        Hlc::new(176834, 176393, 176834),
        Hlc::new(176947, 176737, 176900),
        Hlc::new(176899, 176799, 176799),
        Hlc::new(176946, 176799, 176811),
        Hlc::new(176849, 176474, 176635),
        Hlc::new(176699, 176422, 176524),
        Hlc::new(176649, 176430, 176540),
        Hlc::new(176543, 176326, 176461),
        Hlc::new(176702, 176485, 176511),
        Hlc::new(176702, 176405, 176690),
        Hlc::new(176697, 176361, 176450),
        Hlc::new(176528, 176207, 176358),
        Hlc::new(176344, 176171, 176190),
        Hlc::new(176349, 176001, 176349),
        Hlc::new(176500, 176100, 176500),
        Hlc::new(176396, 176040, 176391),
    ];
    let values = stochastic(&price_data, 14, 1, 3);
    assert_eq!(values.len(), 16);
    for v in &values[..13] {
        assert_eq!(*v, StochValues { k_line: None, d_line: None });
    }
    assert!((as_f64(values[13].k_line.unwrap()) - 36.78646934460893).abs() < 1e-6);
    assert_eq!(values[13].d_line, None);
    assert!((as_f64(values[14].k_line.unwrap()) - 52.74841437632124).abs() < 1e-6);
    assert_eq!(values[14].d_line, None);
    assert!((as_f64(values[15].k_line.unwrap()) - 41.26984126984203).abs() < 1e-6);
    assert!((as_f64(values[15].d_line.unwrap()) - 43.601574996924064).abs() < 1e-6);
    assert_eq!(values[15].k_line, Some(412698412698));
    assert_eq!(values[15].d_line, Some(436015749969));
}
