use unilink_execution::common::InstrumentKind;
use unilink_execution::sandbox::clickhouse_trade_data::MarketTrade;
use unilink_execution::sandbox::ws_trade::parse_base_and_quote;

fn trade(exchange: &str, symbol: &str) -> MarketTrade {
    MarketTrade { exchange: exchange.to_string(), symbol: symbol.to_string(), side: "buy".to_string(), timestamp: 1625244000 }
}

#[test]
fn test_parse_base() {
    let trade_a = MarketTrade { exchange: "example".to_string(), symbol: "BTC_USD".to_string(), side: "buy".to_string(), timestamp: 1625244000 };
    assert_eq!(trade_a.parse_base(), Some("BTC".to_string()));
    let trade_b = MarketTrade { exchange: "".to_string(), symbol: "ETH_BTC".to_string(), side: "".to_string(), timestamp: 0 };
    assert_eq!(trade_b.parse_base(), Some("ETH".to_string()));
    let trade_c = MarketTrade { exchange: "".to_string(), symbol: "XRP".to_string(), side: "".to_string(), timestamp: 0 };
    assert_eq!(trade_c.parse_base(), None);
}

#[test]
fn test_parse_quote() {
    let trade_a = MarketTrade { exchange: "example".to_string(), symbol: "BTC_USD".to_string(), side: "buy".to_string(), timestamp: 1625244000 };
    assert_eq!(trade_a.parse_quote(), Some("USD".to_string()));
    let trade_b = MarketTrade { exchange: "".to_string(), symbol: "ETH_BTC".to_string(), side: "".to_string(), timestamp: 0 };
    assert_eq!(trade_b.parse_quote(), Some("BTC".to_string()));
    let trade_c = MarketTrade { exchange: "".to_string(), symbol: "XRP".to_string(), side: "".to_string(), timestamp: 0 };
    assert_eq!(trade_c.parse_quote(), None);
}

#[test]
fn base_and_quote_need_exactly_one_separator() {
    assert_eq!(trade("x", "BTC_USDT_0329").parse_base(), None);
    assert_eq!(trade("x", "BTC_USDT_0329").parse_quote(), None);
    assert_eq!(trade("x", "_USDT").parse_base(), Some(String::new()));
    assert_eq!(trade("x", "BTC_").parse_quote(), Some(String::new()));
}

#[test]
fn parse_kind_reads_the_venue_label() {
    assert_eq!(trade("binance-futures", "BTC_USDT").parse_kind(), InstrumentKind::Perpetual);
    assert_eq!(trade("binance-FUTURES", "BTC_USDT").parse_kind(), InstrumentKind::Perpetual);
    assert_eq!(trade("binance-spot", "BTC_USDT").parse_kind(), InstrumentKind::Spot);
    assert_eq!(trade("okex-swap-future", "BTC_USDT").parse_kind(), InstrumentKind::Future);
    assert_eq!(trade("okex-swap-futures", "BTC_USDT").parse_kind(), InstrumentKind::Spot);
    assert_eq!(trade("binance", "BTC_USDT").parse_kind(), InstrumentKind::Spot);
}

#[test]
fn parse_instrument_takes_the_first_two_parts() {
    let instrument = trade("binance-futures", "BTC_USDT_0329").parse_instrument().unwrap();
    assert_eq!(instrument.base.0, "BTC");
    assert_eq!(instrument.quote.0, "USDT");
    assert_eq!(instrument.kind, InstrumentKind::Perpetual);
    assert!(trade("binance-futures", "BTCUSDT").parse_instrument().is_none());
}

#[test]
fn parse_base_and_quote_strips_known_quotes_in_order() {
    assert_eq!(parse_base_and_quote("BTCUSDT"), ("BTC".to_string(), "USDT".to_string()));
    assert_eq!(parse_base_and_quote("ETHBTC"), ("ETH".to_string(), "BTC".to_string()));
    assert_eq!(parse_base_and_quote("BTCUSD"), ("BTC".to_string(), "USD".to_string()));
    assert_eq!(parse_base_and_quote("XRPEUR"), ("XRPEUR".to_string(), String::new()));
    assert_eq!(parse_base_and_quote("USDT"), (String::new(), "USDT".to_string()));
}
