//! Loading the simulated exchange's trades from ClickHouse.
pub mod queries_operations;
