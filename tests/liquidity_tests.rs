use indicators_core::liquidity::LiquidityEngine;
use indicators_core::types::{BookSnapshot, Level};
use indicators_core::utils::SCALE;

fn fx(v: f64) -> i64 {
    (v * SCALE as f64).round() as i64
}

fn level(price: f64, size: f64) -> Level {
    Level { price: fx(price), size: fx(size) }
}

fn create_test_snapshot() -> BookSnapshot {
    BookSnapshot {
        ts: 1234567890,
        symbol: "AAPL".to_string(),
        bids: vec![level(149.99, 100.0), level(149.98, 200.0), level(149.97, 150.0)],
        asks: vec![level(150.01, 100.0), level(150.02, 200.0), level(150.03, 150.0)],
    }
}

#[test]
fn test_liquidity_engine_creation() {
    let engine = LiquidityEngine::new();
    assert_eq!(engine.depth_levels, 10);
}

#[test]
fn test_liquidity_basic_calculation() {
    let engine = LiquidityEngine::new();
    let snapshot = create_test_snapshot();

    let result = engine.on_snapshot(&snapshot);
    assert!(result.is_some());

    let metrics = result.unwrap();
    assert_eq!(metrics.best_bid, fx(149.99));
    assert_eq!(metrics.best_ask, fx(150.01));
    assert!((metrics.spread - fx(0.02) as i128).abs() < fx(0.001) as i128);
    assert_eq!(metrics.mid, fx(150.0));
}

#[test]
fn two_level_book_figures() {
    let engine = LiquidityEngine::new();
    let snapshot = BookSnapshot::new(
        1234567890,
        "AAPL".to_string(),
        vec![level(149.99, 100.0), level(149.98, 200.0)],
        vec![level(150.01, 100.0), level(150.02, 200.0)],
    );
    let m = engine.on_snapshot(&snapshot).unwrap();
    assert_eq!(m.best_bid, fx(149.99));
    assert_eq!(m.best_ask, fx(150.01));
    assert_eq!(m.spread, fx(0.02) as i128);
    assert_eq!(m.mid, fx(150.0));
    assert_eq!(m.bids_depth, fx(300.0) as i128);
    assert_eq!(m.asks_depth, fx(300.0) as i128);
    assert_eq!(m.depth_imbalance, 0);
    assert_eq!(m.top_imbalance, 0);
    assert_eq!(m.levels, "2/2");
}

#[test]
fn test_liquidity_empty_snapshot() {
    let engine = LiquidityEngine::new();
    let snapshot = BookSnapshot {
        ts: 1234567890,
        symbol: "AAPL".to_string(),
        bids: vec![],
        asks: vec![],
    };

    let result = engine.on_snapshot(&snapshot);
    assert!(result.is_none());
}

#[test]
fn one_empty_side_is_rejected() {
    let engine = LiquidityEngine::new();
    let no_asks = BookSnapshot::new(1, "AAPL".to_string(), vec![level(1.0, 1.0)], vec![]);
    let no_bids = BookSnapshot::new(1, "AAPL".to_string(), vec![], vec![level(1.0, 1.0)]);
    assert!(engine.on_snapshot(&no_asks).is_none());
    assert!(engine.on_snapshot(&no_bids).is_none());
}

#[test]
fn test_liquidity_depth_calculation() {
    let engine = LiquidityEngine::new();
    let snapshot = create_test_snapshot();

    let result = engine.on_snapshot(&snapshot);
    assert!(result.is_some());

    let metrics = result.unwrap();
    assert_eq!(metrics.bids_depth, fx(450.0) as i128);
    assert_eq!(metrics.asks_depth, fx(450.0) as i128);
}

#[test]
fn depth_counts_configured_levels_only() {
    let mut engine = LiquidityEngine::new();
    engine.depth_levels = 2;
    let m = engine.on_snapshot(&create_test_snapshot()).unwrap();
    assert_eq!(m.bids_depth, fx(300.0) as i128);
    assert_eq!(m.levels, "3/3");
}

#[test]
fn test_liquidity_imbalance_calculation() {
    let engine = LiquidityEngine::new();

    let snapshot = BookSnapshot {
        ts: 1234567890,
        symbol: "AAPL".to_string(),
        bids: vec![level(149.99, 100.0), level(149.98, 200.0)],
        asks: vec![level(150.01, 50.0)],
    };

    let result = engine.on_snapshot(&snapshot);
    assert!(result.is_some());

    let metrics = result.unwrap();
    assert_eq!(metrics.bids_depth, fx(300.0) as i128);
    assert_eq!(metrics.asks_depth, fx(50.0) as i128);
    assert!(metrics.depth_imbalance > 0);
}

#[test]
fn imbalance_values_are_fixed_point() {
    let engine = LiquidityEngine::new();
    let snapshot = BookSnapshot::new(
        1,
        "AAPL".to_string(),
        vec![level(149.99, 100.0), level(149.98, 200.0)],
        vec![level(150.01, 50.0)],
    );
    let m = engine.on_snapshot(&snapshot).unwrap();
    // 250 / 350 and 50 / 150, to six decimals.
    assert_eq!(m.depth_imbalance, 714_285);
    assert_eq!(m.top_imbalance, 333_333);
}

#[test]
fn zero_depth_gives_zero_imbalance() {
    let engine = LiquidityEngine::new();
    let snapshot = BookSnapshot::new(1, "AAPL".to_string(), vec![level(1.0, 0.0)], vec![level(2.0, 0.0)]);
    let m = engine.on_snapshot(&snapshot).unwrap();
    assert_eq!(m.depth_imbalance, 0);
    assert_eq!(m.top_imbalance, 0);
}

#[test]
fn test_liquidity_top_imbalance() {
    let engine = LiquidityEngine::new();

    let snapshot = BookSnapshot {
        ts: 1234567890,
        symbol: "AAPL".to_string(),
        bids: vec![level(149.99, 100.0)],
        asks: vec![level(150.01, 50.0)],
    };

    let result = engine.on_snapshot(&snapshot);
    assert!(result.is_some());

    let metrics = result.unwrap();
    assert!(metrics.top_imbalance > 0);
    assert_eq!(metrics.bid1_size, fx(100.0));
    assert_eq!(metrics.ask1_size, fx(50.0));
}

#[test]
fn test_liquidity_levels_count() {
    let engine = LiquidityEngine::new();
    let snapshot = create_test_snapshot();

    let result = engine.on_snapshot(&snapshot);
    assert!(result.is_some());

    let metrics = result.unwrap();
    assert_eq!(metrics.levels, "3/3");
}

#[test]
fn levels_label_uses_decimal_counts() {
    let engine = LiquidityEngine::new();
    let bids: Vec<Level> = (0..12).map(|i| Level::new(100 - i, 1)).collect();
    let snapshot = BookSnapshot::new(1, "X".to_string(), bids, vec![Level::new(101, 1)]);
    let m = engine.on_snapshot(&snapshot).unwrap();
    assert_eq!(m.levels, "12/1");
    assert_eq!(m.bids_depth, 10);
}
