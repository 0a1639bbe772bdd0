//! Configuration of organisations and their probe targets.

pub mod app_config;
pub mod probe_config;
