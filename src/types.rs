//! The events that the engines consume and the metrics they return.
//!
//! Prices, sizes and volumes are fixed-point integers (see `utils::SCALE`).

use vstd::prelude::*;

verus! {

/// One executed trade.
#[derive(Clone, Debug)]
pub struct Trade {
    /// Epoch milliseconds.
    pub ts: u64,
    pub price: i64,
    pub size: i64,
    pub symbol: String,
    /// Aggressor side as tagged by the feed ("BUY" or "SELL", any case).
    pub side: Option<String>,
    pub exchange: Option<String>,
}

impl Trade {
    pub fn new(ts: u64, price: i64, size: i64, symbol: String) -> (r: Trade)
        ensures
            r.ts == ts,
            r.price == price,
            r.size == size,
            r.symbol@ == symbol@,
            r.side is None,
            r.exchange is None,
    {
        Trade { ts, price, size, symbol, side: None, exchange: None }
    }
}

/// One OHLCV bar.
#[derive(Clone, Debug)]
pub struct Bar {
    pub ts: u64,
    pub open: i64,
    pub high: i64,
    pub low: i64,
    pub close: i64,
    pub volume: i64,
    /// Timeframe label, such as "1m".
    pub tf: String,
    pub symbol: String,
}

impl Bar {
    pub fn new(
        ts: u64,
        open: i64,
        high: i64,
        low: i64,
        close: i64,
        volume: i64,
        tf: String,
        symbol: String,
    ) -> (r: Bar)
        ensures
            r.ts == ts,
            r.open == open,
            r.high == high,
            r.low == low,
            r.close == close,
            r.volume == volume,
            r.tf@ == tf@,
            r.symbol@ == symbol@,
    {
        Bar { ts, open, high, low, close, volume, tf, symbol }
    }
}

/// One price level of an order book.
#[derive(Clone, Copy, Debug, PartialEq, Eq)]
pub struct Level {
    pub price: i64,
    pub size: i64,
}

impl Level {
    pub fn new(price: i64, size: i64) -> (r: Level)
        ensures
            r.price == price,
            r.size == size,
    {
        Level { price, size }
    }
}

/// An order-book snapshot; each side is ordered best level first.
#[derive(Clone, Debug)]
pub struct BookSnapshot {
    pub ts: u64,
    pub symbol: String,
    pub bids: Vec<Level>,
    pub asks: Vec<Level>,
}

impl BookSnapshot {
    pub fn new(ts: u64, symbol: String, bids: Vec<Level>, asks: Vec<Level>) -> (r: BookSnapshot)
        ensures
            r.ts == ts,
            r.symbol@ == symbol@,
            r.bids@ == bids@,
            r.asks@ == asks@,
    {
        BookSnapshot { ts, symbol, bids, asks }
    }
}

/// Result of one trade on the cumulative volume delta.
#[derive(Clone, Debug)]
pub struct CVDMetrics {
    pub cvd: i128,
    /// "BUY" or "SELL".
    pub last_side: String,
    pub last_size: i64,
    pub timestamp: u64,
}

impl CVDMetrics {
    pub fn new(cvd: i128, last_side: String, last_size: i64, timestamp: u64) -> (r: CVDMetrics)
        ensures
            r.cvd == cvd,
            r.last_side@ == last_side@,
            r.last_size == last_size,
            r.timestamp == timestamp,
    {
        CVDMetrics { cvd, last_side, last_size, timestamp }
    }
}

/// Liquidity figures of one snapshot. Imbalances are fixed-point ratios.
#[derive(Clone, Debug)]
pub struct LiquidityMetrics {
    pub mid: i64,
    pub spread: i128,
    pub bids_depth: i128,
    pub asks_depth: i128,
    pub depth_imbalance: i128,
    pub top_imbalance: i128,
    pub best_bid: i64,
    pub best_ask: i64,
    pub bid1_size: i64,
    pub ask1_size: i64,
    /// "{bid level count}/{ask level count}".
    pub levels: String,
}

impl LiquidityMetrics {
    pub fn new(
        mid: i64,
        spread: i128,
        bids_depth: i128,
        asks_depth: i128,
        depth_imbalance: i128,
        top_imbalance: i128,
        best_bid: i64,
        best_ask: i64,
        bid1_size: i64,
        ask1_size: i64,
        levels: String,
    ) -> (r: LiquidityMetrics)
        ensures
            r.mid == mid,
            r.spread == spread,
            r.bids_depth == bids_depth,
            r.asks_depth == asks_depth,
            r.depth_imbalance == depth_imbalance,
            r.top_imbalance == top_imbalance,
            r.best_bid == best_bid,
            r.best_ask == best_ask,
            r.bid1_size == bid1_size,
            r.ask1_size == ask1_size,
            r.levels@ == levels@,
    {
        LiquidityMetrics {
            mid,
            spread,
            bids_depth,
            asks_depth,
            depth_imbalance,
            top_imbalance,
            best_bid,
            best_ask,
            bid1_size,
            ask1_size,
            levels,
        }
    }
}

/// One heatmap cell of a bucket: a price bin of one side and its size.
#[derive(Clone, Debug)]
pub struct Tile {
    pub price_bin: i128,
    pub total_size: i128,
    /// "bid" or "ask".
    pub side: String,
}

impl Tile {
    pub fn new(price_bin: i128, total_size: i128, side: String) -> (r: Tile)
        ensures
            r.price_bin == price_bin,
            r.total_size == total_size,
            r.side@ == side@,
    {
        Tile { price_bin, total_size, side }
    }
}

/// The significant tiles of the current bucket.
#[derive(Clone, Debug)]
pub struct HeatmapMetrics {
    pub bucket_ts: u64,
    pub bucket_ms: u64,
    pub tiles: Vec<Tile>,
    pub max_sz: i128,
    /// Cells held over tiles kept, as a fixed-point ratio.
    pub compression_ratio: i128,
}

impl HeatmapMetrics {
    pub fn new(
        bucket_ts: u64,
        bucket_ms: u64,
        tiles: Vec<Tile>,
        max_sz: i128,
        compression_ratio: i128,
    ) -> (r: HeatmapMetrics)
        ensures
            r.bucket_ts == bucket_ts,
            r.bucket_ms == bucket_ms,
            r.tiles@ == tiles@,
            r.max_sz == max_sz,
            r.compression_ratio == compression_ratio,
    {
        HeatmapMetrics { bucket_ts, bucket_ms, tiles, max_sz, compression_ratio }
    }
}

/// Running volume-weighted average price of a symbol.
#[derive(Clone, Debug)]
pub struct VWAPMetrics {
    pub vwap: i128,
    /// Sum of price times size, in units of `1 / SCALE` squared.
    pub pv_sum: i128,
    pub v_sum: i128,
    pub session_id: Option<String>,
}

impl VWAPMetrics {
    pub fn new(vwap: i128, pv_sum: i128, v_sum: i128, session_id: Option<String>) -> (r: VWAPMetrics)
        ensures
            r.vwap == vwap,
            r.pv_sum == pv_sum,
            r.v_sum == v_sum,
            r.session_id == session_id,
    {
        VWAPMetrics { vwap, pv_sum, v_sum, session_id }
    }
}

} // verus!
