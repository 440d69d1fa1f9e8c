//! A deterministic backtest engine for trading strategies.
//!
//! Prices are integer ticks, timestamps are integer seconds and percentages
//! are basis points (hundredths of a percent), so every computation of the
//! engine is exact.
pub mod candle;
pub mod pattern;
pub mod instrument;
pub mod trade;
pub mod stop_loss;
pub mod order;
pub mod strategy;
pub mod stats;
pub mod engine;
pub mod store;
