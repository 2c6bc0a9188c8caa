//! Logging bootstrap for services: the settings record, the plan of output
//! layers derived from it, the target filter that gates those layers, and the
//! once-only installation state machine.
pub mod bootstrap;
pub mod filter;
pub mod log_config;

pub use log_config::Config;
