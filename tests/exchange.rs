use oscillatorsetups::decimal::Dec;
use oscillatorsetups::exchange::chart_data::{
    complete_bars, klines_from_candles, Candle, Intervals, KlineParams, KlinesSubset,
};
use oscillatorsetups::utils::CustomError;

fn candle(timestamp: u64, close: i64) -> Candle {
    Candle {
        timestamp,
        price_low: close - 5,
        price_high: close + 5,
        price_open: close - 1,
        price_close: close,
        volume: Dec { mantissa: 25, scale: 1 },
    }
}

#[test]
fn interval_values_are_seconds() {
    assert_eq!(Intervals::M1.value(), 60);
    assert_eq!(Intervals::S1.value(), 1);
    assert_eq!(Intervals::H4.value(), 14400);
    assert_eq!(Intervals::W1.value(), 604800);
}

#[test]
fn interval_names() {
    assert_eq!(Intervals::H1.as_string(), "1h".to_string());
    assert_eq!(Intervals::M15.as_string(), "15m".to_string());
    assert_eq!(Intervals::D3.as_string(), "3d".to_string());
}

#[test]
fn kline_params_defaults() {
    let params = KlineParams {
        base_asset: "ETH",
        quote_asset: "USD",
        interval: Intervals::H12,
        limit: 1000,
        base_url: None,
        source: None,
    };
    assert_eq!(params.get_source(), "api");
    assert_eq!(params.get_interval(), "12h".to_string());
    assert_eq!(params.request_limit(), 1001);
    let params = KlineParams { source: Some("file"), ..params };
    assert_eq!(params.get_source(), "file");
}

#[test]
fn complete_bars_drop_the_open_one() {
    let k = KlinesSubset {
        time_open: 0,
        price_open: 1,
        price_low: 1,
        price_high: 1,
        price_close: 1,
        time_close: 59_999,
        volume: Dec { mantissa: 0, scale: 0 },
    };
    assert_eq!(complete_bars(vec![k, k, k]).len(), 2);
    assert!(complete_bars(vec![]).is_empty());
}

#[test]
fn candles_become_ordered_complete_bars() {
    let candles = vec![candle(1_700_000_120, 30), candle(1_700_000_000, 10), candle(1_700_000_060, 20)];
    let bars = klines_from_candles(candles, 60).unwrap();
    assert_eq!(bars.len(), 2);
    assert_eq!(bars[0].time_open, 1_700_000_000_000);
    assert_eq!(bars[0].time_close, 1_700_000_059_999);
    assert_eq!(bars[0].price_close, 10);
    assert_eq!(bars[1].time_open, 1_700_000_060_000);
    assert_eq!(bars[1].price_close, 20);
    assert_eq!(bars[1].volume, Dec { mantissa: 25, scale: 1 });
}

#[test]
fn candle_times_out_of_range_are_refused() {
    let candles = vec![candle(u64::MAX / 10, 10), candle(u64::MAX / 5, 20)];
    assert!(klines_from_candles(candles, 60).is_none());
}

#[test]
fn custom_error_keeps_its_message() {
    let e = CustomError::new("Undefined source name".to_string());
    assert_eq!(e.to_string(), "Undefined source name".to_string());
}
