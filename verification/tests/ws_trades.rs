use unilink_execution::common::{Exchange, InstrumentKind, MarketEvent};
use unilink_execution::simulated_exchange::ws_trade::{timestamp_or_zero, WsTrade};
use unilink_execution::text::{i64_text, parse_i64};

#[test]
fn decimal_parse_agrees_with_std() {
    let cases = [
        "123", "-42", "+7", "", "-", "+", "12a", "9223372036854775807", "9223372036854775808",
        "-9223372036854775808", "-9223372036854775809", " 1", "007", "+-1", "99999999999999999999999999999999999999999",
        "0", "-0", "١٢",
    ];
    for c in cases {
        assert_eq!(parse_i64(c), c.parse::<i64>().ok(), "case {:?}", c);
    }
}

#[test]
fn timestamps_that_do_not_parse_read_as_zero() {
    assert_eq!(timestamp_or_zero("1700000000123"), 1700000000123);
    assert_eq!(timestamp_or_zero("17e9"), 0);
}

#[test]
fn websocket_trade_event() {
    let trade = WsTrade {
        inst_id: "BTC-USDT".to_string(),
        side: "buy".to_string(),
        px: "65000.1".to_string(),
        ts: "1700000000123".to_string(),
    };
    let e = MarketEvent::from_ws_trade(trade, "BTC".to_string(), "USDT".to_string(), Exchange::Okex);
    assert_eq!(e.exchange_time, 1700000000123);
    assert_eq!(e.received_time, 1700000000123);
    assert_eq!(e.exchange, Exchange::Okex);
    assert_eq!(e.instrument.kind, InstrumentKind::Spot);
    assert_eq!(e.instrument.base.0, "BTC");
    assert_eq!(e.kind.px, "65000.1");

    let bad = WsTrade { inst_id: String::new(), side: String::new(), px: String::new(), ts: "n/a".to_string() };
    let e = MarketEvent::from_ws_trade(bad, "A".to_string(), "B".to_string(), Exchange::Simulated);
    assert_eq!(e.exchange_time, 0);
}

#[test]
fn trade_event_on_any_instrument_kind() {
    let e = MarketEvent::instrument_trade_event(5, 9u8, "ETH".to_string(), "USD".to_string(), InstrumentKind::Future, Exchange::Binance);
    assert_eq!((e.exchange_time, e.received_time, e.kind), (5, 5, 9u8));
    assert_eq!(e.instrument.kind, InstrumentKind::Future);
    assert_eq!(e.instrument.quote.0, "USD");
}

#[test]
fn stored_trade_keeps_its_time_through_the_websocket_form() {
    for ts in [0i64, 1700000000123, -5, i64::MAX, i64::MIN] {
        let ws = WsTrade::from_stored("BTC_USDT".to_string(), "buy".to_string(), "1.5".to_string(), ts);
        assert_eq!(ws.ts, ts.to_string());
        assert_eq!(ws.inst_id, "BTC_USDT");
        assert_eq!(ws.px, "1.5");
        let e = MarketEvent::from_ws_trade(ws, "BTC".to_string(), "USDT".to_string(), Exchange::Simulated);
        assert_eq!(e.exchange_time, ts);
    }
}

#[test]
fn integers_are_written_as_to_string_writes_them() {
    for v in [0i64, 7, 10, 99, 100, 12345, -1, -10, i64::MAX, i64::MIN] {
        assert_eq!(i64_text(v), v.to_string());
    }
}
