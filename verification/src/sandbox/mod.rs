//! The sandbox exchange: account rules, latency model and market-data helpers.
pub mod account;
pub mod clickhouse_trade_data;
pub mod instrument_orders;
pub mod queries_operations;
pub mod public_trade_order;
pub mod query_builder;
pub mod ws_trade;
