//! Rules of the command line: its arguments and the configuration of a Guard.

pub mod args;
pub mod document;
pub mod guard_config;
pub mod laws;
pub mod startup;
pub mod sync;
