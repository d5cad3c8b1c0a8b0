use indicators_core::cvd::CVDEngine;
use indicators_core::liquidity::LiquidityEngine;
use indicators_core::subscriber::{subscribe_to_nats_async, NATSConfig, NATSSubscriber};
use indicators_core::types::{BookSnapshot, Level, Trade};
use indicators_core::utils::SCALE;

fn fx(v: f64) -> i64 {
    (v * SCALE as f64).round() as i64
}

#[test]
fn test_trade_creation() {
    let trade = Trade::new(1234567890, fx(150.0), fx(100.0), "AAPL".to_string());
    assert_eq!(trade.ts, 1234567890);
    assert_eq!(trade.price, fx(150.0));
    assert_eq!(trade.size, fx(100.0));
    assert_eq!(trade.symbol, "AAPL");
}

#[test]
fn test_cvd_engine_basic() {
    let mut engine = CVDEngine::new();

    let trade = Trade::new(1234567890, fx(150.0), fx(100.0), "AAPL".to_string());
    let result = engine.on_trade(&trade);

    assert!(result.is_some());
    let metrics = result.unwrap();
    assert_eq!(metrics.timestamp, 1234567890);
    assert_eq!(metrics.last_size, fx(100.0));
}

#[test]
fn test_level_creation() {
    let level = Level::new(fx(150.0), fx(100.0));
    assert_eq!(level.price, fx(150.0));
    assert_eq!(level.size, fx(100.0));
}

#[test]
fn test_book_snapshot_creation() {
    let bids = vec![Level::new(fx(149.99), fx(100.0)), Level::new(fx(149.98), fx(200.0))];
    let asks = vec![Level::new(fx(150.01), fx(100.0)), Level::new(fx(150.02), fx(200.0))];

    let snapshot = BookSnapshot::new(1234567890, "AAPL".to_string(), bids, asks);
    assert_eq!(snapshot.ts, 1234567890);
    assert_eq!(snapshot.symbol, "AAPL");
    assert_eq!(snapshot.bids.len(), 2);
    assert_eq!(snapshot.asks.len(), 2);
}

#[test]
fn test_liquidity_engine_basic() {
    let engine = LiquidityEngine::new();

    let bids = vec![Level::new(fx(149.99), fx(100.0)), Level::new(fx(149.98), fx(200.0))];
    let asks = vec![Level::new(fx(150.01), fx(100.0)), Level::new(fx(150.02), fx(200.0))];
    let snapshot = BookSnapshot::new(1234567890, "AAPL".to_string(), bids, asks);

    let result = engine.on_snapshot(&snapshot);
    assert!(result.is_some());

    let metrics = result.unwrap();
    assert_eq!(metrics.best_bid, fx(149.99));
    assert_eq!(metrics.best_ask, fx(150.01));
    assert!((metrics.spread - fx(0.02) as i128).abs() < fx(0.001) as i128);
}

#[test]
fn subscriber_routes_events() {
    let config = NATSConfig::new(
        "nats://localhost:4222".to_string(),
        "trades".to_string(),
        "MARKET".to_string(),
    );
    let mut sub = NATSSubscriber::new(config);
    assert_eq!(sub.start(), "Conectando a NATS: nats://localhost:4222");

    let trade = Trade::new(1, fx(150.0), fx(10.0), "AAPL".to_string());
    let cvd = sub.process_trade(&trade).unwrap();
    assert_eq!(cvd.cvd, fx(10.0) as i128);
    assert_eq!(sub.vwap_engine.get_vwap("AAPL"), None);

    let book = BookSnapshot::new(1500, "AAPL".to_string(), vec![Level::new(fx(1.0), fx(1.0))], vec![]);
    let heat = sub.process_book(&book).unwrap();
    assert_eq!(heat.bucket_ts, 1000);
    let empty = BookSnapshot::new(1500, "AAPL".to_string(), vec![], vec![]);
    assert!(sub.process_book(&empty).is_none());
}

#[test]
fn async_subscription_line() {
    assert_eq!(subscribe_to_nats_async("nats://h:1", "books"), "Async NATS: nats://h:1 @ books");
}
