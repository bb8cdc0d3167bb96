use chrono::{Datelike, NaiveDate};
use unilink_execution::common::{ExchangeError, Side};
use unilink_execution::sandbox::queries_operations::{next_batch_offset, side_from_text, tables_for_date, ClickHouseClient};
use unilink_execution::simulated_exchange::chrono_operations::{
    trade_dates_between, trade_dates_from_parsed, FIRST_CALENDAR_DAY, LAST_CALENDAR_DAY,
};
use unilink_execution::simulated_exchange::load_from_clickhouse::queries_operations::ClickHouseClient as SimulatedClient;
use unilink_execution::text::contains_text;

fn names(v: &[&str]) -> Vec<String> {
    v.iter().map(|s| s.to_string()).collect()
}

#[test]
fn table_listing_statements() {
    let client = ClickHouseClient::new();
    assert_eq!(client.table_names_query("binance_futures_trades"), "SHOW TABLES FROM binance_futures_trades");
    assert_eq!(
        client.union_table_names_query("binance_futures_trades"),
        "SHOW TABLES FROM binance_futures_trades LIKE '%union%'"
    );
    assert_eq!(client.optimize_table_query("db.t_union_2024_05_05"), "OPTIMIZE TABLE db.t_union_2024_05_05");
}

#[test]
fn union_creation_statement_joins_each_table() {
    let client = ClickHouseClient::new();
    let q = client.union_creation_query("db", "db_union_2024_05_05", &names(&["t1", "t2"]));
    assert_eq!(
        q,
        "CREATE TABLE db.db_union_2024_05_05 ENGINE = MergeTree() PARTITION BY toYYYYMMDD(toDate(timestamp)) \
         ORDER BY timestamp AS SELECT symbol, side, price, timestamp, amount FROM db.t1 UNION ALL \
         SELECT symbol, side, price, timestamp, amount FROM db.t2"
    );
    let single = client.union_creation_query("db", "u", &names(&["t1"]));
    assert!(single.ends_with("AS SELECT symbol, side, price, timestamp, amount FROM db.t1"));
    let none = client.union_creation_query("db", "u", &[]);
    assert!(none.ends_with("ORDER BY timestamp AS "));
}

#[test]
fn trade_reading_statements() {
    let client = ClickHouseClient::new();
    assert_eq!(
        client.trade_table_query("binance", "futures", "2024-05-05", "sol", "usdt"),
        "SELECT symbol, side, price, timestamp, amount FROM binance_futures_trades.binance_futures_trades_2024_05_05_SOLUSDT ORDER BY timestamp DESC"
    );
    assert_eq!(
        client.latest_trade_query("okex", "swap", "2024-05-05", "btc", "usdt"),
        "SELECT symbol, side, price, timestamp, amount FROM okex_swap_trades.okex_swap_trades_2024_05_05_BTC_USDT_SWAP ORDER BY timestamp DESC LIMIT 1"
    );
    assert_eq!(
        client.union_table_query("binance", "futures", "trades", "2024-05-05"),
        "SELECT * FROM binance_futures_trades.binance_futures_trades_union_2024_05_05 ORDER BY timestamp"
    );
}

#[test]
fn batch_statement_leaves_the_offset_out() {
    let client = ClickHouseClient::new();
    assert_eq!(client.union_batch_query("db", "t", "ASC", 1000, 0), "SELECT * FROM db.t ORDER BY timestamp ASC LIMIT 1000");
    assert_eq!(client.union_batch_query("db", "t", "DESC", 50, 150), "SELECT * FROM db.t ORDER BY timestamp DESC LIMIT 50");
}

#[test]
fn batches_go_on_only_after_a_full_batch() {
    assert_eq!(next_batch_offset(3, 10, 0), None);
    assert_eq!(next_batch_offset(0, 10, 40), None);
    assert_eq!(next_batch_offset(10, 10, 20), Some(30));
}

#[test]
fn union_tables_are_picked_by_name() {
    let client = ClickHouseClient::new();
    let paths = client.union_table_paths("db", &names(&["a_union_2024", "b_2024", "union", "unio"]));
    assert_eq!(paths, names(&["db.a_union_2024", "db.union"]));
    assert!(client.union_table_paths("db", &[]).is_empty());
}

#[test]
fn free_table_filter_matches_the_method() {
    let client = ClickHouseClient::new();
    let all = names(&[
        "binance_futures_trades_2024_05_05_SOLUSDT",
        "binance_futures_trades_2024_05_06_SOLUSDT",
    ]);
    assert_eq!(tables_for_date(&all, "2024_05_05"), client.get_tables_for_date(&all, "2024_05_05"));
    assert_eq!(tables_for_date(&all, "2024_05_05"), names(&["binance_futures_trades_2024_05_05_SOLUSDT"]));
}

#[test]
fn dates_between_cover_both_ends() {
    let dates = trade_dates_between("2024_02_27", "2024_03_02").unwrap();
    assert_eq!(dates, names(&["2024_02_27", "2024_02_28", "2024_02_29", "2024_03_01", "2024_03_02"]));
    assert_eq!(trade_dates_between("2024_05_05", "2024_05_05").unwrap(), names(&["2024_05_05"]));
    assert!(trade_dates_between("2024_05_06", "2024_05_05").unwrap().is_empty());
}

#[test]
fn dates_that_do_not_parse_are_refused() {
    match trade_dates_between("2024-05-05", "2024_05_06") {
        Err(ExchangeError::InvalidTradingPair(m)) => assert!(m.starts_with("Invalid start date format: ")),
        other => panic!("unexpected {:?}", other),
    }
    match trade_dates_between("2024_05_05", "2024_13_01") {
        Err(ExchangeError::InvalidTradingPair(m)) => assert!(m.starts_with("Invalid end date format: ")),
        other => panic!("unexpected {:?}", other),
    }
}

#[test]
fn calendar_day_bounds_are_chronos() {
    assert_eq!(NaiveDate::MIN.num_days_from_ce(), FIRST_CALENDAR_DAY);
    assert_eq!(NaiveDate::MAX.num_days_from_ce(), LAST_CALENDAR_DAY);
}

#[test]
fn text_search() {
    assert!(contains_text("binance_union_x", "union"));
    assert!(contains_text("abc", ""));
    assert!(!contains_text("uni", "union"));
    assert!(!contains_text("unoin", "union"));
}

#[test]
fn simulated_client_statements() {
    let client = SimulatedClient::new();
    assert_eq!(client.table_names_query("db"), "SHOW TABLES FROM db");
    assert_eq!(
        client.trade_table_query("binance", "futures", "2024-05-05", "sol", "usdt"),
        "SELECT symbol, side, price, timestamp FROM binance_futures_trades.binance_futures_trades_2024_05_05_SOLUSDT ORDER BY timestamp"
    );
    assert_eq!(
        client.latest_trade_query("binance", "futures", "2024-05-05", "sol", "usdt"),
        "SELECT symbol, side, price, timestamp FROM binance_futures_trades.binance_futures_trades_2024_05_05_SOLUSDT ORDER BY timestamp DESC LIMIT 1"
    );
    assert_eq!(
        client.union_table_query("binance", "futures", "trades", "2024_05_05"),
        "SELECT * FROM binance_futures_trades.binance_futures_trades_union_2024_05_05"
    );
    assert_eq!(
        client.union_batch_query("binance", "futures", "trades", "2024_05_05", 100, 200),
        "SELECT symbol, side, price, timestamp FROM binance_futures_trades.binance_futures_trades_union_2024_05_05 LIMIT 100 OFFSET 200"
    );
    assert_eq!(
        client.dated_batch_query("binance", "futures", "trades", "2024_05_05", 100, 0),
        "SELECT symbol, side, price, timestamp FROM binance_futures_trades.binance_futures_trades_union_2024_05_05 ORDER BY timestamp LIMIT 100 OFFSET 0 "
    );
}

#[test]
fn union_table_read_newest_first() {
    let client = ClickHouseClient::new();
    assert_eq!(
        client.union_trade_query("binance", "futures", "2024-05-05"),
        "SELECT symbol, side, price, timestamp, amount FROM binance_futures_trades.binance_futures_trades_union_2024_05_05 ORDER BY timestamp DESC"
    );
}

#[test]
fn sides_are_read_from_their_names() {
    assert_eq!(side_from_text("Buy"), Some(Side::Buy));
    assert_eq!(side_from_text("Sell"), Some(Side::Sell));
    assert_eq!(side_from_text("buy"), None);
    assert_eq!(side_from_text(""), None);
}

#[test]
fn union_tables_named_by_the_client_are_picked() {
    let client = ClickHouseClient::new();
    let name = client.construct_union_table_name("okex", "swap", "trades", "2024-01-31");
    let paths = client.union_table_paths("okex_swap_trades", &[name.clone()]);
    assert_eq!(paths, vec![format!("okex_swap_trades.{}", name)]);
}

#[test]
fn dates_from_parsed_days() {
    let first = NaiveDate::from_ymd_opt(2024, 2, 28).unwrap().num_days_from_ce();
    let last = NaiveDate::from_ymd_opt(2024, 3, 1).unwrap().num_days_from_ce();
    assert_eq!(trade_dates_from_parsed(Ok(first), Ok(last)).unwrap(), names(&["2024_02_28", "2024_02_29", "2024_03_01"]));
    assert!(trade_dates_from_parsed(Ok(last), Ok(first)).unwrap().is_empty());
    assert_eq!(
        trade_dates_from_parsed(Err("bad start".to_string()), Err("bad end".to_string())),
        Err(ExchangeError::InvalidTradingPair("Invalid start date format: bad start".to_string()))
    );
    assert_eq!(
        trade_dates_from_parsed(Ok(first), Err("bad end".to_string())),
        Err(ExchangeError::InvalidTradingPair("Invalid end date format: bad end".to_string()))
    );
}
