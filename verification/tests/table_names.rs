use unilink_execution::common::Side;
use unilink_execution::sandbox::queries_operations::{ClickHouseClient, ClickhousePublicTrade};

#[test]
fn binance_and_okex_table_names() {
    let client = ClickHouseClient::new();
    assert_eq!(
        client.construct_table_name("binance", "futures", "trades", "2024-07-03", "zrx", "usdt"),
        "binance_futures_trades_2024_07_03_ZRXUSDT"
    );
    assert_eq!(
        client.construct_table_name("okex", "swap", "trades", "2024-03-03", "btc", "usdt"),
        "okex_swap_trades_2024_03_03_BTC_USDT_SWAP"
    );
    assert_eq!(client.construct_union_table_name("binance", "futures", "trades", "2024-07-03"), "binance_futures_trades_union_2024_07_03");
    assert_eq!(client.construct_database_name("binance", "futures", "trades"), "binance_futures_trades");
}

#[test]
fn tables_for_a_date() {
    let client = ClickHouseClient::new();
    let names = vec![
        "binance_futures_trades_2024_07_03_ZRXUSDT".to_string(),
        "binance_futures_trades_2024_07_04_ZRXUSDT".to_string(),
        "okex_swap_trades_2024_07_03_BTC_USDT_SWAP".to_string(),
        "other_2024_07_03".to_string(),
    ];
    let found = client.get_tables_for_date(&names, "2024_07_03");
    assert_eq!(found, vec![names[0].clone(), names[2].clone()]);
}

#[test]
fn stored_trade_sides() {
    let buy = ClickhousePublicTrade { symbol: "BTCUSDT".to_string(), side: "Buy".to_string(), timestamp: 1 };
    let sell = ClickhousePublicTrade { symbol: "BTCUSDT".to_string(), side: "Sell".to_string(), timestamp: 1 };
    assert_eq!(buy.parse_side(), Side::Buy);
    assert_eq!(sell.parse_side(), Side::Sell);
}

#[test]
fn stored_public_trades_compare_by_time() {
    let a = ClickhousePublicTrade { symbol: "BTC_USDT".to_string(), side: "Buy".to_string(), timestamp: 1 };
    let b = ClickhousePublicTrade { symbol: "ETH_USDT".to_string(), side: "Sell".to_string(), timestamp: 1 };
    let c = ClickhousePublicTrade { symbol: "BTC_USDT".to_string(), side: "Buy".to_string(), timestamp: 2 };
    assert!(a == b);
    assert!(a != c);
    assert!(a < c);
    assert!(c > b);
    assert_eq!(a.partial_cmp(&b), Some(std::cmp::Ordering::Equal));
}
