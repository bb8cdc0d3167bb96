use unilink_execution::common::{
    ClientOrderId, Exchange, ExchangeError, Instrument, InstrumentKind, Order, OrderInstruction, OrderRole, Side,
};
use unilink_execution::sandbox::account::pending_registry::PendingOrderRegistry;

fn pending(instruction: OrderInstruction, side: Side, cid: Option<&str>, price: u32) -> Order<u32> {
    Order {
        instruction,
        exchange: Exchange::SandBox,
        instrument: Instrument::new("BTC", "USDT", InstrumentKind::Perpetual),
        timestamp: 1625247600000,
        cid: cid.map(|c| ClientOrderId(c.to_string())),
        side,
        state: price,
    }
}

fn ids(registry: &PendingOrderRegistry<u32>) -> Vec<u64> {
    registry.entries.iter().map(|(id, _)| *id).collect()
}

#[test]
fn limit_roles_follow_the_market_price() {
    let mut registry: PendingOrderRegistry<u32> = PendingOrderRegistry::new();
    registry.register_pending_order(1, pending(OrderInstruction::Limit, Side::Buy, Some("cid-one"), 50)).unwrap();
    // A buy at 50.0 with the market at 50.0 rests; at 60.0 it takes.
    assert_eq!(registry.determine_maker_taker(1, OrderInstruction::Limit, Side::Buy, true, true), Ok(OrderRole::Maker));
    assert_eq!(registry.determine_maker_taker(1, OrderInstruction::Limit, Side::Buy, false, true), Ok(OrderRole::Taker));
    assert_eq!(registry.determine_maker_taker(1, OrderInstruction::Market, Side::Sell, false, false), Ok(OrderRole::Taker));
    assert_eq!(ids(&registry), vec![1]);
}

#[test]
fn a_refused_post_only_request_leaves_the_registry() {
    let mut registry: PendingOrderRegistry<u32> = PendingOrderRegistry::new();
    registry.register_pending_order(7, pending(OrderInstruction::PostOnly, Side::Sell, Some("cid-seven"), 70)).unwrap();
    registry.register_pending_order(8, pending(OrderInstruction::PostOnly, Side::Buy, Some("cid-eight"), 80)).unwrap();
    assert_eq!(registry.determine_maker_taker(8, OrderInstruction::PostOnly, Side::Buy, true, false), Ok(OrderRole::Maker));
    assert_eq!(
        registry.determine_maker_taker(7, OrderInstruction::PostOnly, Side::Sell, true, false),
        Err(ExchangeError::OrderRejected("PostOnly order rejected".to_string()))
    );
    assert_eq!(ids(&registry), vec![8]);
    assert_eq!(
        registry.determine_maker_taker(7, OrderInstruction::PostOnly, Side::Sell, true, false),
        Err(ExchangeError::RequestNotFound(7))
    );
    assert_eq!(
        registry.determine_maker_taker(8, OrderInstruction::Cancel, Side::Buy, true, true),
        Err(ExchangeError::UnsupportedOrderKind(OrderInstruction::Cancel))
    );
    assert_eq!(ids(&registry), vec![8]);
}

#[test]
fn removing_a_request_that_is_not_there_is_refused() {
    let mut registry: PendingOrderRegistry<u32> = PendingOrderRegistry::new();
    registry.register_pending_order(3, pending(OrderInstruction::Limit, Side::Buy, Some("cid-three"), 1)).unwrap();
    assert_eq!(registry.remove_order_from_pending_registry(4), Err(ExchangeError::RequestNotFound(4)));
    assert_eq!(registry.remove_order_from_pending_registry(3), Ok(()));
    assert!(registry.entries.is_empty());
}

#[test]
fn a_client_id_registers_once() {
    let mut registry: PendingOrderRegistry<u32> = PendingOrderRegistry::new();
    registry.register_pending_order(1, pending(OrderInstruction::Limit, Side::Buy, Some("cid-one"), 1)).unwrap();
    assert_eq!(
        registry.register_pending_order(2, pending(OrderInstruction::Limit, Side::Buy, Some("cid-one"), 2)),
        Err(ExchangeError::OrderAlreadyExists(Some(ClientOrderId("cid-one".to_string()))))
    );
    registry.register_pending_order(2, pending(OrderInstruction::Limit, Side::Buy, None, 2)).unwrap();
    assert_eq!(
        registry.register_pending_order(3, pending(OrderInstruction::Limit, Side::Buy, None, 3)),
        Err(ExchangeError::OrderAlreadyExists(None))
    );
    registry.register_pending_order(1, pending(OrderInstruction::Limit, Side::Sell, Some("cid-new"), 9)).unwrap();
    assert_eq!(ids(&registry), vec![1, 2]);
    assert_eq!(registry.entries[0].1.state, 9);
}
