//! Core logic of a multi-plot serial monitor: configuration model,
//! line recognition, bounded histories, the polling worker's decisions
//! and the monitor's display state.

pub mod text;
pub mod table;
pub mod bounded;
pub mod config;
pub mod lines;
pub mod worker;
pub mod monitor;
pub mod laws;
