//! Relay node: its identity and its counters.

pub mod key;
pub mod listen;
pub mod metrics;
