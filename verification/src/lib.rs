//! Decoupled sampling and smoothing of processor telemetry for gauge displays.
//!
//! A sampler refreshes the telemetry on its own cadence and publishes each
//! reading to a snapshot store. Once per frame the gauges read the store
//! without waiting, turn their channel's reading into a target and let a
//! second-order filter follow it. All quantities are fixed-point integers.

pub mod arith;
pub mod binary32;
pub mod filter;
pub mod gauge;
pub mod sample;
pub mod sampler;
pub mod store;
pub mod telemetry;
pub mod units;
