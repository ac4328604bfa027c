//! Market price tracking for a fixed set of crypto assets: a price cache with
//! read-time staleness, provider failover and retry decisions, stream
//! ingestion and latency metrics, all as verified sequential logic.

mod clock;
pub mod constants;
pub mod decimal;
pub mod error;
pub mod failover;
pub mod hermes;
pub mod metrics;
pub mod quotes;
pub mod store;
pub mod text;
pub mod tracker;
pub mod types;

pub use error::{PriceError, ProviderError};
pub use metrics::ProviderMetrics;
pub use store::MarketPriceStore;
pub use types::{
    Asset, ComponentHealth, HealthStatus, MarketPriceEvent, Price, PriceData, ProviderStatus,
};
