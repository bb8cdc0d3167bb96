//! The simulated exchange's account: configuration and market-data feeds.
pub mod account_config;
pub mod account_datafeed;
pub mod account_market_feed;
pub mod account_orders;
