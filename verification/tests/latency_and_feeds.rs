use unilink_execution::common::{Exchange, InstrumentKind, MarketEvent, OrderInstruction, Token};
use unilink_execution::sandbox::account::account_latency::{AccountLatency, FluctuationMode};
use unilink_execution::sandbox::clickhouse_trade_data::MarketTrade;
use unilink_execution::simulated::account::{check_order_kind_support, random_duration, AccountBalances};
use unilink_execution::simulated_exchange::account::account_datafeed::{AccountMarketFeed, FeedKind};
use unilink_execution::simulated_exchange::account::account_market_feed::{AccountDataStreams, DataStreams};
use unilink_execution::simulated_exchange::ws_trade::TradeDataFromClickhouse;

#[test]
fn test_check_order_kind_support() {
    let cases = [
        (OrderInstruction::Market, false),
        (OrderInstruction::Limit, true),
        (OrderInstruction::PostOnly, true),
        (OrderInstruction::ImmediateOrCancel, false),
    ];
    for (index, (kind, ok)) in cases.into_iter().enumerate() {
        let actual = check_order_kind_support(kind);
        assert_eq!(actual.is_ok(), ok, "TC{} failed", index);
    }
}

#[test]
fn new_latency_starts_at_its_minimum() {
    let latency = AccountLatency::new(FluctuationMode::Sine, 100, 10);
    assert_eq!(latency.current_value, 10);
    assert_eq!(latency.maximum, 100);
}

#[test]
fn integral_modes_stay_within_bounds() {
    for mode in [
        FluctuationMode::Uniform,
        FluctuationMode::LinearIncrease,
        FluctuationMode::LinearDecrease,
        FluctuationMode::StepFunction,
        FluctuationMode::RandomWalk,
        FluctuationMode::NoFluctuation,
    ] {
        let mut latency = AccountLatency::new(mode, 100, 0);
        for t in [0i64, 7, 55, 1634817600, -42] {
            assert!(latency.fluctuate_integral(t));
            assert!(latency.current_value >= 0 && latency.current_value <= 100, "{:?} at {}", mode, t);
        }
    }
}

#[test]
fn integral_modes_compute_from_the_time() {
    let mut latency = AccountLatency::new(FluctuationMode::LinearIncrease, 100, 10);
    latency.fluctuate_integral(95);
    assert_eq!(latency.current_value, 15);
    let mut latency = AccountLatency::new(FluctuationMode::LinearDecrease, 100, 10);
    latency.fluctuate_integral(95);
    assert_eq!(latency.current_value, 95);
    let mut latency = AccountLatency::new(FluctuationMode::StepFunction, 100, 0);
    latency.fluctuate_integral(35);
    assert_eq!(latency.current_value, 30);
    let mut latency = AccountLatency::new(FluctuationMode::RandomWalk, 100, 0);
    latency.current_value = 50;
    latency.fluctuate_integral(0);
    assert!(latency.current_value == 45 || latency.current_value == 55);
}

#[test]
fn float_modes_are_left_to_the_caller() {
    let mut latency = AccountLatency::new(FluctuationMode::Cosine, 100, 10);
    assert!(!latency.fluctuate_integral(3));
    assert_eq!(latency.current_value, 10);
    latency.settle(250);
    assert_eq!(latency.current_value, 100);
    latency.settle(-5);
    assert_eq!(latency.current_value, 10);
}

#[test]
fn random_duration_stays_in_range() {
    for _ in 0..50 {
        let d = random_duration(10, 20);
        assert!((10..=20).contains(&d));
    }
    assert_eq!(random_duration(7, 7), 7);
}

#[test]
fn balances_lookup_and_write() {
    let mut balances = AccountBalances(vec![(Token("ETH".to_string()), 10u64), (Token("USDT".to_string()), 10_000u64)]);
    assert_eq!(*balances.balance(&Token("ETH".to_string())).unwrap(), 10);
    *balances.balance_mut(&Token("USDT".to_string())).unwrap() = 9_000;
    assert_eq!(*balances.balance(&Token("USDT".to_string())).unwrap(), 9_000);
    match balances.balance(&Token("BTC".to_string())) {
        Err(unilink_execution::common::ExchangeError::Simulated(m)) => {
            assert_eq!(m, "SimulatedExchange is not configured for Token: BTC")
        }
        other => panic!("unexpected {:?}", other),
    }
    let all = balances.fetch_all();
    assert_eq!(all.len(), 2);
    assert_eq!(all[1].token.0, "USDT");
    assert_eq!(all[1].balance, 9_000);
}

#[test]
fn market_feed_batch_ids() {
    let mut feed: AccountMarketFeed<FeedKind<u8, u16>> = AccountMarketFeed::new(FeedKind::LiveFeed(1));
    assert_eq!(feed.get_batch_id(), 0);
    feed.increment_batch_id();
    feed.increment_batch_id();
    assert_eq!(feed.get_batch_id(), 2);
    feed.atomic_id = u64::MAX;
    feed.increment_batch_id();
    assert_eq!(feed.get_batch_id(), 0);
}

#[test]
fn data_streams_add_and_remove() {
    let mut streams: AccountDataStreams<DataStreams<u8, u8>> = AccountDataStreams::new();
    streams.add_stream("stream1".to_string(), DataStreams::Live(1));
    streams.add_stream("stream2".to_string(), DataStreams::Historical(2));
    streams.add_stream("stream1".to_string(), DataStreams::Historical(3));
    assert_eq!(streams.streams.len(), 2);
    assert!(matches!(streams.streams[0].1, DataStreams::Historical(3)));
    streams.remove_stream("stream1".to_string());
    assert_eq!(streams.streams.len(), 1);
    assert_eq!(streams.streams[0].0, "stream2");
    streams.remove_stream("absent".to_string());
    assert_eq!(streams.streams.len(), 1);
}

#[test]
fn market_events_from_stored_trades() {
    let trade = TradeDataFromClickhouse { symbol: "BTCUSDT".to_string(), side: "buy".to_string(), timestamp: 1625097600000 };
    let event = MarketEvent::from_trade_clickhouse(trade, "BTC".to_string(), "USDT".to_string(), Exchange::Binance);
    assert_eq!(event.exchange_time, 1625097600000);
    assert_eq!(event.received_time, 1625097600000);
    assert_eq!(event.instrument.kind, InstrumentKind::Spot);
    assert_eq!(event.instrument.base.0, "BTC");
    let swap = MarketTrade { exchange: "binance-futures".to_string(), symbol: "ETH_USDT".to_string(), side: "sell".to_string(), timestamp: 42 };
    let event = MarketEvent::from_swap_trade_clickhouse(swap, "ETH".to_string(), "USDT".to_string());
    assert_eq!(event.instrument.kind, InstrumentKind::Perpetual);
    assert_eq!(event.exchange, Exchange::SandBox);
    assert_eq!(event.exchange_time, 42);
}

#[test]
fn initializing_tokens_keeps_existing_balances() {
    let mut balances = AccountBalances(vec![(Token("ETH".to_string()), 10u64)]);
    balances.initialize_tokens(vec!["ETH".to_string(), "USDT".to_string(), "USDT".to_string()], 0u64);
    assert_eq!(*balances.balance(&Token("ETH".to_string())).unwrap(), 10);
    assert_eq!(*balances.balance(&Token("USDT".to_string())).unwrap(), 0);
    assert_eq!(balances.fetch_all().len(), 2);
    balances.initialize_token(Token("BTC".to_string()), 7u64);
    balances.initialize_token(Token("BTC".to_string()), 9u64);
    assert_eq!(*balances.balance(&Token("BTC".to_string())).unwrap(), 7);
}

#[test]
fn increments_move_the_batch_id_by_their_count() {
    let mut feed = AccountMarketFeed::new(0u8);
    feed.atomic_id = u64::MAX - 2;
    for _ in 0..5 {
        feed.increment_batch_id();
    }
    assert_eq!(feed.get_batch_id(), (u64::MAX - 2).wrapping_add(5));
}

#[test]
fn fetch_all_lists_each_token_once() {
    let mut balances = AccountBalances(Vec::new());
    balances.initialize_tokens(vec!["BTC".to_string(), "USDT".to_string(), "BTC".to_string()], 0u64);
    balances.initialize_token(Token("USDT".to_string()), 5u64);
    let all = balances.fetch_all();
    let names: Vec<String> = all.iter().map(|b| b.token.0.clone()).collect();
    assert_eq!(names, vec!["BTC".to_string(), "USDT".to_string()]);
}
