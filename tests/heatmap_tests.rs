use indicators_core::heatmap::HeatmapEngine;
use indicators_core::types::{BookSnapshot, Level};
use indicators_core::utils::SCALE;

fn fx(v: f64) -> i64 {
    (v * SCALE as f64).round() as i64
}

fn level(price: f64, size: f64) -> Level {
    Level { price: fx(price), size: fx(size) }
}

fn create_test_snapshot() -> BookSnapshot {
    BookSnapshot {
        ts: 1234567890,
        symbol: "AAPL".to_string(),
        bids: vec![level(149.99, 100.0), level(149.98, 200.0)],
        asks: vec![level(150.01, 100.0), level(150.02, 200.0)],
    }
}

fn one_level_book(ts: u64, size: f64) -> BookSnapshot {
    BookSnapshot {
        ts,
        symbol: "AAPL".to_string(),
        bids: vec![level(149.99, size)],
        asks: vec![level(150.01, size)],
    }
}

#[test]
fn test_heatmap_engine_creation() {
    let engine = HeatmapEngine::new();
    assert_eq!(engine.bucket_ms, 1000);
    assert_eq!(engine.tick_size, fx(0.01));
}

#[test]
fn test_heatmap_empty_snapshot() {
    let mut engine = HeatmapEngine::new();
    let snapshot = BookSnapshot {
        ts: 1234567890,
        symbol: "AAPL".to_string(),
        bids: vec![],
        asks: vec![],
    };

    let result = engine.on_snapshot(&snapshot);
    assert!(result.is_none());
}

#[test]
fn one_sided_snapshot_is_taken() {
    let mut engine = HeatmapEngine::new();
    let snapshot = BookSnapshot::new(1000, "AAPL".to_string(), vec![], vec![level(150.0, 5.0)]);
    let metrics = engine.on_snapshot(&snapshot).unwrap();
    assert_eq!(metrics.tiles.len(), 1);
    assert_eq!(metrics.tiles[0].side, "ask");
}

#[test]
fn test_heatmap_single_snapshot() {
    let mut engine = HeatmapEngine::new();
    let snapshot = create_test_snapshot();

    let result = engine.on_snapshot(&snapshot);
    assert!(result.is_some());

    let metrics = result.unwrap();
    assert_eq!(metrics.bucket_ts, 1234567000);
    assert_eq!(metrics.bucket_ms, 1000);
    assert!(metrics.tiles.len() > 0);
}

#[test]
fn heatmap_test_heatmap_compression() {
    let mut engine = HeatmapEngine::new();
    let snapshot = create_test_snapshot();

    let result = engine.on_snapshot(&snapshot);
    assert!(result.is_some());

    let metrics = result.unwrap();
    assert!(metrics.compression_ratio >= SCALE as i128);
}

#[test]
fn tiles_are_exact_cells() {
    let mut engine = HeatmapEngine::new();
    let metrics = engine.on_snapshot(&create_test_snapshot()).unwrap();
    let got: Vec<(i128, i128, String)> =
        metrics.tiles.iter().map(|t| (t.price_bin, t.total_size, t.side.clone())).collect();
    assert_eq!(
        got,
        vec![
            (fx(149.98) as i128, fx(200.0) as i128, "bid".to_string()),
            (fx(149.99) as i128, fx(100.0) as i128, "bid".to_string()),
            (fx(150.01) as i128, fx(100.0) as i128, "ask".to_string()),
            (fx(150.02) as i128, fx(200.0) as i128, "ask".to_string()),
        ]
    );
    assert_eq!(metrics.max_sz, fx(200.0) as i128);
    assert_eq!(metrics.compression_ratio, SCALE as i128);
}

#[test]
fn small_tiles_are_dropped() {
    let mut engine = HeatmapEngine::new();
    let snapshot = BookSnapshot::new(
        5000,
        "AAPL".to_string(),
        vec![level(10.0, 1000.0), level(9.99, 9.0), level(9.98, 10.0)],
        vec![],
    );
    let metrics = engine.on_snapshot(&snapshot).unwrap();
    let prices: Vec<i128> = metrics.tiles.iter().map(|t| t.price_bin).collect();
    assert_eq!(prices, vec![fx(9.98) as i128, fx(10.0) as i128]);
    // Three cells held, two kept.
    assert_eq!(metrics.compression_ratio, 1_500_000);
    assert_eq!(engine.get_tile_delta(5000).len(), 3);
}

#[test]
fn prices_share_a_bin_after_quantizing() {
    let mut engine = HeatmapEngine::new();
    let snapshot = BookSnapshot::new(
        0,
        "AAPL".to_string(),
        vec![level(100.004, 1.0), level(99.996, 2.0)],
        vec![],
    );
    let metrics = engine.on_snapshot(&snapshot).unwrap();
    assert_eq!(metrics.tiles.len(), 1);
    assert_eq!(metrics.tiles[0].price_bin, fx(100.0) as i128);
    assert_eq!(metrics.tiles[0].total_size, fx(3.0) as i128);
}

#[test]
fn test_heatmap_multiple_snapshots() {
    let mut engine = HeatmapEngine::new();

    let snapshot1 = one_level_book(1234567890, 100.0);
    let snapshot2 = one_level_book(1234568900, 50.0);

    let _ = engine.on_snapshot(&snapshot1);
    let result = engine.on_snapshot(&snapshot2);

    assert!(result.is_some());
    let metrics = result.unwrap();
    assert_eq!(metrics.bucket_ts, 1234568000);
}

#[test]
fn same_bucket_snapshots_accumulate() {
    let mut engine = HeatmapEngine::new();
    engine.on_snapshot(&one_level_book(1234567890, 100.0));
    let metrics = engine.on_snapshot(&one_level_book(1234567999, 50.0)).unwrap();
    assert_eq!(metrics.bucket_ts, 1234567000);
    assert_eq!(metrics.tiles.len(), 2);
    assert_eq!(metrics.tiles[0].total_size, fx(150.0) as i128);
    assert_eq!(metrics.tiles[1].total_size, fx(150.0) as i128);
}

#[test]
fn test_heatmap_tile_ordering() {
    let mut engine = HeatmapEngine::new();
    let snapshot = create_test_snapshot();

    let result = engine.on_snapshot(&snapshot);
    assert!(result.is_some());

    let metrics = result.unwrap();
    for i in 1..metrics.tiles.len() {
        assert!(metrics.tiles[i].price_bin >= metrics.tiles[i - 1].price_bin);
    }
}

#[test]
fn test_heatmap_reset() {
    let mut engine = HeatmapEngine::new();
    let snapshot = create_test_snapshot();

    engine.on_snapshot(&snapshot);

    engine.reset();

    let result = engine.on_snapshot(&snapshot);
    assert!(result.is_some());
}

#[test]
fn reset_empties_every_bucket() {
    let mut engine = HeatmapEngine::new();
    engine.on_snapshot(&create_test_snapshot());
    engine.reset();
    assert!(engine.get_tile_delta(1234567000).is_empty());
    let metrics = engine.on_snapshot(&create_test_snapshot()).unwrap();
    assert_eq!(metrics.tiles[0].total_size, fx(200.0) as i128);
}

#[test]
fn test_heatmap_reset_bucket() {
    let mut engine = HeatmapEngine::new();

    let snapshot1 = one_level_book(1234567890, 100.0);

    engine.on_snapshot(&snapshot1);
    engine.reset_bucket(1234567000);

    let snapshot2 = one_level_book(1234568900, 50.0);

    let result = engine.on_snapshot(&snapshot2);
    assert!(result.is_some());
}

#[test]
fn reset_bucket_keeps_other_buckets() {
    let mut engine = HeatmapEngine::new();
    engine.on_snapshot(&one_level_book(1234567890, 100.0));
    engine.on_snapshot(&one_level_book(1234568900, 50.0));
    engine.reset_bucket(1234567000);
    assert!(engine.get_tile_delta(1234567000).is_empty());
    let kept = engine.get_tile_delta(1234568000);
    assert_eq!(kept.len(), 2);
    assert_eq!(kept[0].total_size, fx(50.0) as i128);
}

#[test]
fn test_heatmap_configuration() {
    let mut engine = HeatmapEngine::new();

    engine.set_bucket_ms(5000);
    engine.set_tick_size(fx(0.05));

    assert_eq!(engine.bucket_ms, 5000);
    assert_eq!(engine.tick_size, fx(0.05));
}

#[test]
fn test_heatmap_different_buckets() {
    let mut engine = HeatmapEngine::new();

    let snapshot1 = one_level_book(1234567890, 100.0);
    let snapshot2 = one_level_book(2234567890, 50.0);

    let result1 = engine.on_snapshot(&snapshot1);
    let result2 = engine.on_snapshot(&snapshot2);

    assert!(result1.is_some());
    assert!(result2.is_some());
    assert_ne!(result1.unwrap().bucket_ts, result2.unwrap().bucket_ts);
}

#[test]
fn tile_delta_is_sorted_and_unfiltered() {
    let mut engine = HeatmapEngine::new();
    let snapshot = BookSnapshot::new(
        7,
        "AAPL".to_string(),
        vec![level(10.0, 1000.0), level(9.0, 1.0)],
        vec![level(11.0, 2.0)],
    );
    engine.on_snapshot(&snapshot);
    let delta = engine.get_tile_delta(0);
    let prices: Vec<i128> = delta.iter().map(|t| t.price_bin).collect();
    assert_eq!(prices, vec![fx(9.0) as i128, fx(10.0) as i128, fx(11.0) as i128]);
    assert_eq!(delta[2].side, "ask");
}
