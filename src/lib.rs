//! Market signal computations over fixed-point integers: an exponential
//! moving average engine, a MACD analyzer built on it, and a dual-phase
//! share-pricing model driven by holder count, volume and trade recency.
pub mod ema;
pub mod error;
pub mod macd;
pub mod pricing;

pub use ema::{compute_ema, PricePoint};
pub use error::AnalysisError;
pub use macd::{compute_macd, compute_macd_with, MacdConfig};
pub use pricing::{base_price_from_holders, dual_phase_pricing, dual_phase_pricing_with, PricingConfig};
