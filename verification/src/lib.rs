//! Synthetic endpoint monitoring: the probe engine, the per-organisation
//! scheduler and the remote-write client, as verified decision logic.
//!
//! Network, clock and task handling live with the caller. The library works on
//! plain values: monotonic clock readings in nanoseconds, status codes, DER
//! bytes, and hands back what to do next.

pub mod config;
pub mod http_probe;
pub mod ieee754;
pub mod mimir;
