//! Aggregation of new videos from subscribed channels: per-channel retrieval
//! with a fallback strategy, time-window filtering, watched-state
//! deduplication, short-form filtering, and deterministic ordering.

pub mod channel;
pub mod clock;
pub mod config;
pub mod fallback;
pub mod feed;
pub mod ports;
pub mod use_cases;
pub mod ytdlp;
pub mod video;
pub mod watched;
