//! Engine of a concurrent port scanner: target enumeration, probe result
//! classification, proxy rotation, rate derivation and result aggregation.
pub mod appstate;
pub mod configuration;
pub mod dispatch;
pub mod modes;
pub mod strategy;
pub mod text;

pub use dispatch::increase_ulimit;
