//! Routing of feed events to the engines that consume them.
//!
//! A host process decodes messages into `Trade` and `BookSnapshot` values,
//! hands them to a `NATSSubscriber`, and publishes the metrics it returns.

use crate::cvd::{cvd_accepts, cvd_before, cvd_step, is_buy, side_word, signed_size, CVDEngine};
use crate::heatmap::{
    compression_of, deposit_snapshot, is_bucket_max, labelled, lists_cells, sorted_by_price,
    tile_items, HeatmapEngine,
};
use crate::liquidity::LiquidityEngine;
use crate::store::{no_cells, no_symbols};
use crate::types::{BookSnapshot, CVDMetrics, HeatmapMetrics, Trade};
use crate::utils::{bucket_of, SCALE};
use crate::vwap::VWAPEngine;
use vstd::prelude::*;

verus! {

/// Where the feed is read from.
pub struct NATSConfig {
    pub url: String,
    pub subject: String,
    pub stream_name: String,
}

impl NATSConfig {
    /// A configuration from its three parts.
    pub fn new(url: String, subject: String, stream_name: String) -> (r: NATSConfig)
        ensures
            r.url@ == url@,
            r.subject@ == subject@,
            r.stream_name@ == stream_name@,
    {
        NATSConfig { url, subject, stream_name }
    }
}

/// One instance of each engine, fed by the events of one subscription.
pub struct NATSSubscriber {
    pub config: NATSConfig,
    pub cvd_engine: CVDEngine,
    pub heatmap_engine: HeatmapEngine,
    pub vwap_engine: VWAPEngine,
    pub liquidity_engine: LiquidityEngine,
}

impl NATSSubscriber {
    /// Well-formed: the heatmap's bucket width and tick size are positive.
    pub open spec fn wf(&self) -> bool {
        self.heatmap_engine.bucket_ms > 0 && self.heatmap_engine.tick_size > 0
    }

    /// A subscriber with fresh engines.
    pub fn new(config: NATSConfig) -> (r: NATSSubscriber)
        ensures
            r.wf(),
            r.config.url@ == config.url@,
            r.cvd_engine.totals() == no_symbols(),
            r.vwap_engine.sums() == no_symbols(),
            r.heatmap_engine.cells() == no_cells(),
    {
        NATSSubscriber {
            config,
            cvd_engine: CVDEngine::new(),
            heatmap_engine: HeatmapEngine::new(),
            vwap_engine: VWAPEngine::new(),
            liquidity_engine: LiquidityEngine::new(),
        }
    }

    /// The line announcing the connection.
    pub fn start(&self) -> (r: String)
        ensures
            r@ == "Conectando a NATS: "@ + self.config.url@,
    {
        String::from_str("Conectando a NATS: ").concat(self.config.url.as_str())
    }

    /// Routes a trade to the cumulative volume delta.
    pub fn process_trade(&mut self, trade: &Trade) -> (r: Option<CVDMetrics>)
        ensures
            final(self).heatmap_engine.bucket_ms == old(self).heatmap_engine.bucket_ms,
            final(self).heatmap_engine.tick_size == old(self).heatmap_engine.tick_size,
            final(self).cvd_engine.totals() == cvd_step(old(self).cvd_engine.totals(), *trade),
            (r is Some) == cvd_accepts(old(self).cvd_engine.totals(), *trade),
            r matches Some(m) ==> {
                &&& m.cvd == cvd_before(old(self).cvd_engine.totals(), trade.symbol@) + signed_size(
                    *trade,
                )
                &&& m.last_side@ == side_word(is_buy(*trade))
                &&& m.last_size == trade.size
                &&& m.timestamp == trade.ts
            },
            final(self).vwap_engine.sums() == old(self).vwap_engine.sums(),
            final(self).heatmap_engine.cells() == old(self).heatmap_engine.cells(),
    {
        self.cvd_engine.on_trade(trade)
    }

    /// Routes a book snapshot to the heatmap.
    pub fn process_book(&mut self, snapshot: &BookSnapshot) -> (r: Option<HeatmapMetrics>)
        requires
            old(self).wf(),
        ensures
            final(self).wf(),
            (r is None) == (snapshot.bids@.len() == 0 && snapshot.asks@.len() == 0),
            r matches Some(m) ==> {
                let b = bucket_of(
                    snapshot.ts as int,
                    old(self).heatmap_engine.bucket_ms as int,
                ) as u64;
                let g = deposit_snapshot(
                    old(self).heatmap_engine.cells(),
                    b,
                    old(self).heatmap_engine.tick_size as int,
                    snapshot.bids@,
                    snapshot.asks@,
                );
                &&& final(self).heatmap_engine.cells() == g
                &&& m.bucket_ts == b
                &&& m.bucket_ms == old(self).heatmap_engine.bucket_ms
                &&& is_bucket_max(g, b, m.max_sz as int)
                &&& lists_cells(g, b, Some(m.max_sz as int), tile_items(m.tiles@))
                &&& sorted_by_price(tile_items(m.tiles@))
                &&& labelled(m.tiles@)
                &&& m.compression_ratio == compression_of(g.len() as int, m.tiles@.len() as int)
                &&& m.tiles@.len() > 0 ==> m.compression_ratio >= SCALE
            },
            r is None ==> final(self).heatmap_engine.cells() == old(self).heatmap_engine.cells(),
            final(self).cvd_engine.totals() == old(self).cvd_engine.totals(),
    {
        self.heatmap_engine.on_snapshot(snapshot)
    }
}

/// The line announcing an asynchronous subscription.
pub fn subscribe_to_nats_async(url: &str, subject: &str) -> (r: String)
    ensures
        r@ == "Async NATS: "@ + url@ + " @ "@ + subject@,
{
    String::from_str("Async NATS: ").concat(url).concat(" @ ").concat(subject)
}

} // verus!
