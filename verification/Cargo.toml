[package]
name = "unilink_execution"
version = "0.1.0"
edition = "2021"
publish = false

[dependencies]
chrono = "0.4"
regex = "1"
rand = "0.8"
rand_distr = "0.4"
serde = { version = "1", features = ["derive"] }
toml = "0.8"
thiserror = "1"
tokio = { version = "1", features = ["full"] }
uuid = { version = "1", features = ["v4"] }
dashmap = "5"
rayon = "1"
tracing = "0.1"
futures = "0.3"
futures-core = "0.3"
async-trait = "0.1"
async-stream = "0.3"
num-traits = "0.2"
clickhouse = "*"
warp = "0.3"
