# unilink_execution

The decision core of an exchange simulator (a sandbox exchange and a
simulated exchange that replay market trades stored in ClickHouse), written
in Verus and proved against its contracts.

## Layout

- `src/` — the verified library.
  - `common.rs` — sides, instruments, order instructions, orders, errors.
  - `text.rs` — verified text helpers: decimal writing and reading,
    separators, prefixes, suffixes, infixes.
  - `sandbox/` — the sandbox exchange: the ClickHouse query builder, table
    and database naming and the statements sent to ClickHouse, the parsing
    of stored trades and symbols, the per-instrument books of open orders,
    cancellation of resting orders, the registry of requests that wait out
    their latency, and the account rules (order roles,
    request validation, balance requirements, configuration inheritance,
    position handling, position books, latency models).
  - `simulated_exchange/` — the simulated exchange: UTC+8 clock fields,
    dates in table names, date ranges, market events from stored and
    websocket trades, data feeds and streams, the orders of an account
    (latencies, waiting requests, books by instrument) and its ClickHouse
    statements.
  - `simulated/` — balances of simulated accounts and supported order kinds.
  - `statistics/` — statistics errors.
- `app/` — ordinary Rust around the library: amounts and prices in floating
  point (balances, fees, order matching, latency curves, dispersion), the
  configuration file, the ClickHouse connection and the asynchronous
  streams.
- `tests/` — tests of the library on concrete values.

Contracts are stated over sequences, views and spec functions; the
calls into chrono, regex, rand, rayon, num-traits, clickhouse and tokio are made
behind a few trusted wrappers whose doc comments say what is assumed of them.
