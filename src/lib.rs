//! Streaming market-microstructure indicators: cumulative volume delta,
//! volume-weighted average price, order-book liquidity and a time-bucketed
//! order-book heatmap, all over fixed-point integers (see `utils::SCALE`).

pub mod cvd;
pub mod heatmap;
pub mod laws;
pub mod liquidity;
pub mod store;
pub mod subscriber;
pub mod types;
pub mod utils;
pub mod vwap;
