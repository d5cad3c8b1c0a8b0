use indicators_core::types::{Bar, Trade};
use indicators_core::utils::SCALE;
use indicators_core::vwap::VWAPEngine;

fn fx(v: f64) -> i64 {
    (v * SCALE as f64).round() as i64
}

fn un(v: i128) -> f64 {
    v as f64 / SCALE as f64
}

fn trade(ts: u64, price: f64, size: f64, symbol: &str) -> Trade {
    Trade {
        ts,
        price: fx(price),
        size: fx(size),
        symbol: symbol.to_string(),
        side: None,
        exchange: None,
    }
}

#[test]
fn test_vwap_engine_creation() {
    let engine = VWAPEngine::new();
    assert_eq!(engine.get_vwap("AAPL"), None);
}

#[test]
fn test_vwap_single_trade() {
    let mut engine = VWAPEngine::new();
    let trade = trade(1000, 150.0, 100.0, "AAPL");

    let result = engine.on_trade(&trade);
    assert!(result.is_some());

    let metrics = result.unwrap();
    assert_eq!(metrics.vwap, fx(150.0) as i128);
    // Price times size carries the scale twice.
    assert_eq!(metrics.pv_sum, fx(15000.0) as i128 * SCALE as i128);
    assert_eq!(metrics.v_sum, fx(100.0) as i128);
}

#[test]
fn test_vwap_accumulation() {
    let mut engine = VWAPEngine::new();

    let trade1 = trade(1000, 150.0, 100.0, "AAPL");
    let trade2 = trade(2000, 151.0, 50.0, "AAPL");

    engine.on_trade(&trade1);
    let result = engine.on_trade(&trade2);

    assert!(result.is_some());
    let metrics = result.unwrap();

    let expected_vwap = (150.0 * 100.0 + 151.0 * 50.0) / 150.0;
    assert!((un(metrics.vwap) - expected_vwap).abs() < 0.01);
}

#[test]
fn vwap_two_trades_exact() {
    let mut engine = VWAPEngine::new();
    engine.on_trade(&trade(1000, 150.0, 100.0, "AAPL"));
    let metrics = engine.on_trade(&trade(2000, 151.0, 50.0, "AAPL")).unwrap();
    // (150 * 100 + 151 * 50) / 150 = 150.333333..., to six decimals.
    assert_eq!(metrics.vwap, 150_333_333);
    assert_eq!(engine.get_vwap("AAPL"), Some(150_333_333));
}

#[test]
fn test_vwap_multiple_symbols() {
    let mut engine = VWAPEngine::new();

    let trade1 = trade(1000, 150.0, 100.0, "AAPL");
    let trade2 = trade(1000, 3000.0, 1.0, "BTCUSDT");

    engine.on_trade(&trade1);
    engine.on_trade(&trade2);

    let vwap_aapl = engine.get_vwap("AAPL");
    let vwap_btc = engine.get_vwap("BTCUSDT");

    assert_eq!(vwap_aapl, Some(fx(150.0) as i128));
    assert_eq!(vwap_btc, Some(fx(3000.0) as i128));
}

#[test]
fn test_vwap_invalid_trade() {
    let mut engine = VWAPEngine::new();
    let trade = trade(1000, -150.0, 100.0, "AAPL");
    assert!(engine.on_trade(&trade).is_none());
}

#[test]
fn invalid_trade_keeps_sums() {
    let mut engine = VWAPEngine::new();
    engine.on_trade(&trade(1000, 150.0, 100.0, "AAPL"));
    assert!(engine.on_trade(&trade(1001, 160.0, 0.0, "AAPL")).is_none());
    assert!(engine.on_trade(&trade(1002, 0.0, 5.0, "AAPL")).is_none());
    assert_eq!(engine.get_vwap("AAPL"), Some(fx(150.0) as i128));
}

#[test]
fn test_vwap_on_bar() {
    let mut engine = VWAPEngine::new();

    let bar = Bar {
        ts: 1000,
        open: fx(149.0),
        high: fx(151.0),
        low: fx(148.0),
        close: fx(150.0),
        volume: fx(1000.0),
        tf: "1m".to_string(),
        symbol: "AAPL".to_string(),
    };

    let result = engine.on_bar(&bar);
    assert!(result.is_some());

    let metrics = result.unwrap();
    let expected_tp = (151.0 + 148.0 + 150.0) / 3.0;
    assert!((un(metrics.vwap) - expected_tp).abs() < 0.01);
}

#[test]
fn bar_vwap_is_typical_price() {
    let mut engine = VWAPEngine::new();
    let bar = Bar::new(
        1000,
        fx(149.0),
        fx(151.0),
        fx(148.0),
        fx(150.0),
        fx(1000.0),
        "1m".to_string(),
        "AAPL".to_string(),
    );
    let metrics = engine.on_bar(&bar).unwrap();
    // (151 + 148 + 150) / 3 = 149.666666..., to six decimals.
    assert_eq!(metrics.vwap, 149_666_666);
    assert_eq!(metrics.v_sum, fx(1000.0) as i128);
}

#[test]
fn bars_and_trades_share_sums() {
    let mut engine = VWAPEngine::new();
    let bar = Bar::new(1, 0, fx(3.0), fx(1.0), fx(2.0), fx(10.0), "1m".to_string(), "X".to_string());
    engine.on_bar(&bar);
    let metrics = engine.on_trade(&trade(2, 4.0, 10.0, "X")).unwrap();
    assert_eq!(metrics.vwap, fx(3.0) as i128);
    assert_eq!(metrics.v_sum, fx(20.0) as i128);
}

#[test]
fn test_vwap_batch_processing() {
    let engine = VWAPEngine::new();

    let trades = vec![
        trade(1000, 150.0, 100.0, "AAPL"),
        trade(2000, 151.0, 50.0, "AAPL"),
        trade(3000, 152.0, 75.0, "AAPL"),
    ];

    let results = engine.on_trade_batch(trades);

    assert_eq!(results.len(), 3);
    assert_eq!(results[0].vwap, fx(150.0) as i128);

    let expected2 = (150.0 * 100.0 + 151.0 * 50.0) / 150.0;
    assert!((un(results[1].vwap) - expected2).abs() < 0.01);
}

#[test]
fn batch_starts_from_zero() {
    let mut engine = VWAPEngine::new();
    engine.on_trade(&trade(1, 100.0, 10.0, "AAPL"));
    let results = engine.on_trade_batch(vec![trade(2, 200.0, 10.0, "AAPL")]);
    assert_eq!(results[0].vwap, fx(200.0) as i128);
    assert_eq!(engine.get_vwap("AAPL"), Some(fx(100.0) as i128));
}

#[test]
fn test_vwap_reset_symbol() {
    let mut engine = VWAPEngine::new();
    let trade = trade(1000, 150.0, 100.0, "AAPL");

    engine.on_trade(&trade);
    assert!(engine.get_vwap("AAPL").is_some());

    engine.reset_symbol("AAPL");
    assert_eq!(engine.get_vwap("AAPL"), None);
}

#[test]
fn test_vwap_reset_all() {
    let mut engine = VWAPEngine::new();

    let trade1 = trade(1000, 150.0, 100.0, "AAPL");
    let trade2 = trade(1000, 3000.0, 1.0, "BTCUSDT");

    engine.on_trade(&trade1);
    engine.on_trade(&trade2);

    engine.reset_all();

    assert_eq!(engine.get_vwap("AAPL"), None);
    assert_eq!(engine.get_vwap("BTCUSDT"), None);
}

#[test]
fn test_vwap_empty_batch() {
    let engine = VWAPEngine::new();
    let trades = Vec::new();

    let results = engine.on_trade_batch(trades);
    assert!(results.is_empty());
}

#[test]
fn test_vwap_zero_volume() {
    let mut engine = VWAPEngine::new();

    let bar = Bar {
        ts: 1000,
        open: fx(150.0),
        high: fx(151.0),
        low: fx(149.0),
        close: fx(150.0),
        volume: 0,
        tf: "1m".to_string(),
        symbol: "AAPL".to_string(),
    };

    let result = engine.on_bar(&bar);
    assert!(result.is_none());
}

#[test]
fn vwap_rejects_sums_out_of_range() {
    let mut engine = VWAPEngine::new();
    let huge = Trade::new(1, i64::MAX, i64::MAX, "X".to_string());
    assert!(engine.on_trade(&huge).is_some());
    assert!(engine.on_trade(&huge).is_some());
    assert!(engine.on_trade(&huge).is_none());
    assert_eq!(engine.get_vwap("X"), Some(i64::MAX as i128));
}
