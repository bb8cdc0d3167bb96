use unilink_execution::common::{
    ClientOrderId, Exchange, ExchangeError, Instrument, InstrumentKind, Order, OrderId, OrderInstruction, RequestCancel, Side,
};
use unilink_execution::sandbox::account::{atomic_cancel, cancel_all_requests};
use unilink_execution::sandbox::instrument_orders::InstrumentOrders;

fn order(side: Side, tag: u32) -> Order<u32> {
    Order {
        instruction: OrderInstruction::Limit,
        exchange: Exchange::SandBox,
        instrument: Instrument::new("SOL", "USDT", InstrumentKind::Perpetual),
        timestamp: 0,
        cid: None,
        side,
        state: tag,
    }
}

fn tags(side: &[(u64, OrderId, Order<u32>)]) -> Vec<(u64, u32)> {
    side.iter().map(|(r, _, o)| (*r, o.state)).collect()
}

#[derive(Debug, PartialEq)]
struct Resting {
    price: f64,
    size: f64,
}

fn create_order(side: Side, price: f64, size: f64) -> Order<Resting> {
    Order {
        instruction: OrderInstruction::Limit,
        exchange: Exchange::Binance,
        instrument: Instrument::new("SOL", "USDT", InstrumentKind::Spot),
        timestamp: 0,
        cid: Some(ClientOrderId("OJBK".to_string())),
        side,
        state: Resting { price, size },
    }
}

#[test]
fn test_add_order_open() {
    let mut instrument_orders: InstrumentOrders<Resting> = InstrumentOrders::new();
    instrument_orders.add_order_open(100, OrderId(1), create_order(Side::Buy, 100.0, 1.0));
    instrument_orders.add_order_open(110, OrderId(2), create_order(Side::Sell, 110.0, 1.0));
    assert_eq!(instrument_orders.bids.len(), 1);
    assert_eq!(instrument_orders.asks.len(), 1);
    assert_eq!(instrument_orders.bids[0].2, create_order(Side::Buy, 100.0, 1.0));
    assert_eq!(instrument_orders.asks[0].2, create_order(Side::Sell, 110.0, 1.0));
}

#[test]
fn test_num_orders() {
    let mut instrument_orders: InstrumentOrders<Resting> = InstrumentOrders::new();
    assert_eq!(instrument_orders.num_orders(), 0);
    instrument_orders.add_order_open(100, OrderId(3), create_order(Side::Buy, 100.0, 1.0));
    assert_eq!(instrument_orders.num_orders(), 1);
    instrument_orders.add_order_open(110, OrderId(4), create_order(Side::Sell, 110.0, 1.0));
    assert_eq!(instrument_orders.num_orders(), 2);
    instrument_orders.add_order_open(105, OrderId(5), create_order(Side::Buy, 105.0, 1.0));
    instrument_orders.add_order_open(107, OrderId(6), create_order(Side::Buy, 107.0, 1.0));
    instrument_orders.add_order_open(115, OrderId(7), create_order(Side::Sell, 115.0, 1.0));
    assert_eq!(instrument_orders.num_orders(), 5);
}

#[test]
fn orders_are_kept_in_rank_order_with_ties_in_arrival_order() {
    let mut book: InstrumentOrders<u32> = InstrumentOrders::new();
    book.add_order_open(50, OrderId(1), order(Side::Buy, 1));
    book.add_order_open(30, OrderId(2), order(Side::Buy, 2));
    book.add_order_open(70, OrderId(3), order(Side::Buy, 3));
    book.add_order_open(50, OrderId(4), order(Side::Buy, 4));
    book.add_order_open(10, OrderId(5), order(Side::Sell, 5));
    assert_eq!(tags(&book.bids), vec![(30, 2), (50, 1), (50, 4), (70, 3)]);
    assert_eq!(tags(&book.asks), vec![(10, 5)]);
}

#[test]
fn trade_id_is_the_trade_counter() {
    let mut book: InstrumentOrders<u32> = InstrumentOrders::new();
    assert_eq!(book.trade_id(), 0);
    book.batch_id = 7;
    assert_eq!(book.trade_id(), 7);
}

#[test]
fn the_best_order_is_last() {
    let mut book: InstrumentOrders<u32> = InstrumentOrders::new();
    for (rank, tag) in [(5u64, 1u32), (9, 2), (1, 3), (9, 4), (0, 5)] {
        book.add_order_open(rank, OrderId(tag as u64), order(Side::Sell, tag));
    }
    let ranks: Vec<u64> = book.asks.iter().map(|(r, _, _)| *r).collect();
    let mut sorted = ranks.clone();
    sorted.sort();
    assert_eq!(ranks, sorted);
    assert_eq!(book.asks.last().map(|(r, _, o)| (*r, o.state)), Some((9, 4)));
}

fn cancel_request(side: Side, id: Option<u64>, cid: Option<&str>) -> Order<RequestCancel> {
    Order {
        instruction: OrderInstruction::Cancel,
        exchange: Exchange::SandBox,
        instrument: Instrument::new("SOL", "USDT", InstrumentKind::Perpetual),
        timestamp: 1625247600000,
        cid: cid.map(|c| ClientOrderId(c.to_string())),
        side,
        state: RequestCancel { id: id.map(OrderId) },
    }
}

fn order_with_cid(side: Side, tag: u32, cid: &str) -> Order<u32> {
    let mut o = order(side, tag);
    o.cid = Some(ClientOrderId(cid.to_string()));
    o
}

fn sample_book() -> InstrumentOrders<u32> {
    let mut book: InstrumentOrders<u32> = InstrumentOrders::new();
    book.add_order_open(30, OrderId(11), order_with_cid(Side::Buy, 1, "clientA1"));
    book.add_order_open(50, OrderId(12), order(Side::Buy, 2));
    book.add_order_open(40, OrderId(13), order_with_cid(Side::Buy, 3, "clientC3"));
    book.add_order_open(60, OrderId(14), order(Side::Sell, 4));
    book
}

#[test]
fn remove_for_cancel_finds_the_order_by_exchange_id() {
    let mut book = sample_book();
    let removed = book.remove_for_cancel(&cancel_request(Side::Buy, Some(12), Some("otherCID9"))).unwrap();
    assert_eq!((removed.0, removed.1, removed.2.state), (50, OrderId(12), 2));
    assert_eq!(tags(&book.bids), vec![(30, 1), (40, 3)]);
    assert_eq!(tags(&book.asks), vec![(60, 4)]);
}

#[test]
fn remove_for_cancel_finds_the_order_by_client_id() {
    let mut book = sample_book();
    let removed = book.remove_for_cancel(&cancel_request(Side::Buy, Some(99), Some("clientC3"))).unwrap();
    assert_eq!(removed.1, OrderId(13));
    assert_eq!(tags(&book.bids), vec![(30, 1), (50, 2)]);
}

#[test]
fn remove_for_cancel_searches_only_the_requested_side() {
    let mut book = sample_book();
    let result = book.remove_for_cancel(&cancel_request(Side::Sell, Some(12), Some("clientA1")));
    assert_eq!(result.unwrap_err(), ExchangeError::OrderNotFound(ClientOrderId("clientA1".to_string())));
    assert_eq!(tags(&book.bids), vec![(30, 1), (40, 3), (50, 2)]);
    assert_eq!(tags(&book.asks), vec![(60, 4)]);
}

#[test]
fn remove_for_cancel_without_client_id_reports_unknown() {
    let mut book = sample_book();
    let result = book.remove_for_cancel(&cancel_request(Side::Buy, Some(77), None));
    assert_eq!(result.unwrap_err(), ExchangeError::OrderNotFound(ClientOrderId("Unknown".to_string())));
    assert_eq!(book.num_orders(), 4);
}

#[test]
fn mod_test_fail_to_cancel_limit_order_due_to_invalid_order_id() {
    let mut book: InstrumentOrders<u32> = InstrumentOrders::new();
    let mut invalid_cancel_request = cancel_request(Side::Buy, Some(99999), Some("validCID123"));
    invalid_cancel_request.instrument = Instrument::new("ETH", "USDT", InstrumentKind::Perpetual);
    let result = atomic_cancel(&mut book, &invalid_cancel_request);
    assert!(result.is_err());
    assert_eq!(result.unwrap_err(), ExchangeError::OrderNotFound(ClientOrderId("validCID123".into())));
}

#[test]
fn atomic_cancel_refuses_an_invalid_request_and_keeps_the_book() {
    let mut book = sample_book();
    let result = atomic_cancel(&mut book, &cancel_request(Side::Buy, Some(0), Some("clientA1")));
    assert_eq!(result.unwrap_err(), ExchangeError::InvalidRequestCancel("OrderId is missing or invalid".to_string()));
    assert_eq!(book.num_orders(), 4);
}

#[test]
fn atomic_cancel_removes_a_resting_order() {
    let mut book = sample_book();
    let removed = atomic_cancel(&mut book, &cancel_request(Side::Sell, Some(14), None)).unwrap();
    assert_eq!(removed.1, OrderId(14));
    assert!(book.asks.is_empty());
    assert_eq!(book.num_orders(), 3);
}

#[test]
fn cancel_all_requests_name_every_resting_order() {
    let book = sample_book();
    let requests = cancel_all_requests(&book, 42);
    let ids: Vec<Option<OrderId>> = requests.iter().map(|r| r.state.id).collect();
    assert_eq!(ids, vec![Some(OrderId(11)), Some(OrderId(13)), Some(OrderId(12)), Some(OrderId(14))]);
    assert!(requests.iter().all(|r| r.timestamp == 42 && r.exchange == Exchange::SandBox));
    assert_eq!(requests[0].cid, Some(ClientOrderId("clientA1".to_string())));
    assert_eq!(requests[3].side, Side::Sell);
    let mut emptied = sample_book();
    for request in &requests {
        assert!(atomic_cancel(&mut emptied, request).is_ok());
    }
    assert_eq!(emptied.num_orders(), 0);
}

#[test]
fn an_unordered_side_is_sorted_on_the_next_add() {
    let mut book: InstrumentOrders<u32> = InstrumentOrders::new();
    book.bids.push((70, OrderId(1), order(Side::Buy, 1)));
    book.bids.push((20, OrderId(2), order(Side::Buy, 2)));
    book.add_order_open(40, OrderId(3), order(Side::Buy, 3));
    assert_eq!(tags(&book.bids), vec![(20, 2), (40, 3), (70, 1)]);
}

#[test]
fn a_request_without_exchange_id_is_served_by_client_id() {
    let mut book = sample_book();
    let removed = atomic_cancel(&mut book, &cancel_request(Side::Buy, None, Some("clientC3"))).unwrap();
    assert_eq!(removed.1, OrderId(13));
    assert_eq!(tags(&book.bids), vec![(30, 1), (50, 2)]);
    let missing = atomic_cancel(&mut book, &cancel_request(Side::Buy, None, Some("nobodyX9")));
    assert_eq!(missing.unwrap_err(), ExchangeError::OrderNotFound(ClientOrderId("nobodyX9".to_string())));
    assert_eq!(tags(&book.bids), vec![(30, 1), (50, 2)]);
}

#[test]
fn a_market_trade_meets_the_side_it_crosses() {
    let book = sample_book();
    // Best bid ranks 50, best ask ranks 60.
    assert_eq!(book.determine_matching_side("buy", 60), Some(Side::Sell));
    assert_eq!(book.determine_matching_side("buy", 59), None);
    assert_eq!(book.determine_matching_side("sell", 50), Some(Side::Buy));
    assert_eq!(book.determine_matching_side("sell", 51), None);
    assert_eq!(book.determine_matching_side("Buy", 99), None);
    let empty: InstrumentOrders<u32> = InstrumentOrders::new();
    assert_eq!(empty.determine_matching_side("buy", u64::MAX), None);
}
