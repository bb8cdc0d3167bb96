use unilink_execution::common::{ClientOrderId, Exchange, ExchangeError, Instrument, InstrumentKind, Order, OrderInstruction, Side};
use unilink_execution::sandbox::account::account_latency::{AccountLatency, FluctuationMode};
use unilink_execution::simulated_exchange::account::account_orders::AccountOrders;

fn latencies() -> [i64; 20] {
    let mut l = [0i64; 20];
    for (i, v) in l.iter_mut().enumerate() {
        *v = 10 + i as i64;
    }
    l
}

fn request(base: &str) -> Order<(f64, f64)> {
    Order {
        instruction: OrderInstruction::Limit,
        exchange: Exchange::Simulated,
        instrument: Instrument::new(base, "USDT", InstrumentKind::Spot),
        timestamp: 1000,
        cid: Some(ClientOrderId("OJBK".to_string())),
        side: Side::Buy,
        state: (50.0, 1.0),
    }
}

fn new_orders() -> AccountOrders<u8> {
    let instruments = vec![
        Instrument::new("BTC", "USDT", InstrumentKind::Spot),
        Instrument::new("ETH", "USDT", InstrumentKind::Spot),
        Instrument::new("BTC", "USDT", InstrumentKind::Spot),
    ];
    AccountOrders::new(instruments, AccountLatency::new(FluctuationMode::Uniform, 100, 10), latencies())
}

#[test]
fn new_orders_have_one_book_per_instrument() {
    let orders = new_orders();
    assert_eq!(orders.instrument_orders_map.len(), 2);
    assert_eq!(orders.instrument_orders_map[0].0.base.0, "BTC");
    assert_eq!(orders.instrument_orders_map[1].0.base.0, "ETH");
    assert!(orders.pending_registry.is_empty());
    assert_eq!(orders.request_counter, 0);
}

#[test]
fn random_latency_is_a_selectable_one() {
    let orders = new_orders();
    for _ in 0..50 {
        let l = orders.get_random_latency();
        assert!((10..30).contains(&l));
    }
}

#[test]
fn books_are_found_by_instrument() {
    let mut orders = new_orders();
    assert!(orders.orders_mut(&Instrument::new("ETH", "USDT", InstrumentKind::Spot)).is_ok());
    match orders.orders_mut(&Instrument::new("SOL", "USDT", InstrumentKind::Spot)) {
        Err(ExchangeError::Simulated(m)) => assert_eq!(m, "SimulatedExchange 没有为 Instrument: SOL_USDT 配置"),
        other => panic!("unexpected {:?}", other.is_ok()),
    }
    orders.orders_mut(&Instrument::new("BTC", "USDT", InstrumentKind::Spot)).unwrap().batch_id = 3;
    assert_eq!(orders.instrument_orders_map[0].1.batch_id, 3);
}

#[test]
fn requests_wait_out_a_selectable_latency() {
    let mut orders = new_orders();
    let pending = orders.keep_request_as_pending(request("BTC"));
    assert!(pending.state.predicted_ts >= 1010 && pending.state.predicted_ts < 1030);
    assert_eq!(pending.cid, Some(ClientOrderId("OJBK".to_string())));
    assert_eq!(orders.pending_registry.len(), 1);
    assert_eq!(orders.pending_registry[0], pending);
}

#[test]
fn request_counter_numbers_the_orders() {
    let mut orders = new_orders();
    assert_eq!(orders.order_id().value(), 0);
    orders.increment_request_counter();
    orders.increment_request_counter();
    assert_eq!(orders.order_id().value(), 2);
    orders.request_counter = u64::MAX;
    orders.increment_request_counter();
    assert_eq!(orders.request_counter, 0);
}
