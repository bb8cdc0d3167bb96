//! Verified core of an exchange simulator: order and account decision rules,
//! latency models, market-data parsing and ClickHouse query construction.
pub mod common;
pub mod text;
pub mod sandbox;
pub mod simulated_exchange;
pub mod simulated;
pub mod statistics;
