//! The simulated exchange: account data feeds, configuration and market-data
//! utilities.
pub mod account;
pub mod chrono_operations;
pub mod ws_trade;
pub mod load_from_clickhouse;
