//! Rules of the gateway between the dashboard and the nodes.

pub mod config;
pub mod error;
pub mod handlers;
pub mod laws;
pub mod models;
pub mod rate_limit;
pub mod roles;
pub mod startup;
