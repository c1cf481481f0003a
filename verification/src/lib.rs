//! Text processing, feed parsing and request decisions of the trend analysis
//! services, with their contracts proved by Verus.

pub mod text;
pub mod error;
pub mod model;
pub mod batches;
pub mod news;
pub mod json;
pub mod reddit;
pub mod analysis;
pub mod config;
pub mod gateway;
pub mod laws;
pub mod launcher;
pub mod agent;
