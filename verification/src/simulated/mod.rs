//! The simulated exchange's account: configuration, balances and order-kind
//! support.
pub mod account;
pub mod account_config;
