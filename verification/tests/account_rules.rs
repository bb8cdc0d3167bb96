use unilink_execution::common::{
    ClientOrderId, Exchange, ExchangeError, Instrument, InstrumentKind, Order, OrderId, OrderInstruction, OrderRole,
    PositionDirectionMode, PositionMarginMode, RequestCancel, Side, Token,
};
use unilink_execution::sandbox::account::account_config::SandboxMode;
use unilink_execution::sandbox::account::positions::{AccountPositions, PositionSlot};
use unilink_execution::sandbox::account::{
    banded_required_balance, determine_handling_type, determine_order_role, handle_config_inheritance, open_order_lock_token, required_available_balance, update_exchange_ts, exchange_ts_for,
    validate_order_instruction, validate_order_request_cancel, BandedAmount, PositionHandlingKind, PriceBand, RequiredAmount,
    SizeComparison,
};

fn cancel_request(cid: Option<&str>, id: Option<u64>, base: &str, quote: &str) -> Order<RequestCancel> {
    Order {
        instruction: OrderInstruction::Market,
        exchange: Exchange::SandBox,
        instrument: Instrument::new(base, quote, InstrumentKind::Spot),
        timestamp: 1625247600000,
        cid: cid.map(|c| ClientOrderId(c.to_string())),
        side: Side::Buy,
        state: RequestCancel { id: id.map(OrderId) },
    }
}

#[test]
fn test_validate_order_request_cancel() {
    let cancel_order = cancel_request(Some("validCID123"), Some(12345), "BTC", "USD");
    assert!(validate_order_request_cancel(&cancel_order).is_ok());
    let invalid_cancel_order = Order { state: RequestCancel { id: Some(OrderId(0)) }, ..cancel_order };
    assert!(validate_order_request_cancel(&invalid_cancel_order).is_err());
}

#[test]
fn cancel_request_errors_name_the_first_failed_check() {
    let err = |o: Order<RequestCancel>| match validate_order_request_cancel(&o) {
        Err(ExchangeError::InvalidRequestCancel(m)) => m,
        other => panic!("unexpected {:?}", other),
    };
    assert_eq!(err(cancel_request(None, None, "BTC", "USD")), "Both OrderId and ClientOrderId are missing");
    assert_eq!(err(cancel_request(Some("abc"), Some(0), "BTC", "USD")), "OrderId is missing or invalid");
    assert_eq!(err(cancel_request(Some("abcd"), Some(7), "BTC", "USD")), "ClientOrderId is missing or invalid");
    assert_eq!(err(cancel_request(Some(""), None, "BTC", "USD")), "ClientOrderId is missing or invalid");
    assert_eq!(err(cancel_request(Some("abcde"), None, "BTC", "BTC")), "Base and Quote tokens must be different");
    assert!(validate_order_request_cancel(&cancel_request(Some("abcde"), None, "BTC", "USD")).is_ok());
    assert!(validate_order_request_cancel(&cancel_request(None, Some(1), "ETH", "USDT")).is_ok());
    // Five bytes, though fewer characters, is long enough.
    assert!(validate_order_request_cancel(&cancel_request(Some("éé1"), None, "ETH", "USDT")).is_ok());
}

#[test]
fn every_instruction_is_a_valid_instruction() {
    for kind in [
        OrderInstruction::Market,
        OrderInstruction::Limit,
        OrderInstruction::ImmediateOrCancel,
        OrderInstruction::FillOrKill,
        OrderInstruction::PostOnly,
        OrderInstruction::GoodTilCancelled,
        OrderInstruction::Cancel,
    ] {
        assert!(validate_order_instruction(kind).is_ok());
    }
}

#[test]
fn order_roles() {
    assert_eq!(determine_order_role(OrderInstruction::Market, Side::Buy, true, false), Ok(OrderRole::Taker));
    assert_eq!(determine_order_role(OrderInstruction::FillOrKill, Side::Sell, false, true), Ok(OrderRole::Taker));
    assert_eq!(determine_order_role(OrderInstruction::ImmediateOrCancel, Side::Sell, false, true), Ok(OrderRole::Taker));
    // A buy limit at or above the market rests; below it takes.
    assert_eq!(determine_order_role(OrderInstruction::Limit, Side::Buy, true, false), Ok(OrderRole::Maker));
    assert_eq!(determine_order_role(OrderInstruction::Limit, Side::Buy, false, true), Ok(OrderRole::Taker));
    assert_eq!(determine_order_role(OrderInstruction::GoodTilCancelled, Side::Sell, false, true), Ok(OrderRole::Maker));
    assert_eq!(determine_order_role(OrderInstruction::GoodTilCancelled, Side::Sell, true, false), Ok(OrderRole::Taker));
    assert_eq!(determine_order_role(OrderInstruction::PostOnly, Side::Sell, true, true), Ok(OrderRole::Maker));
    assert_eq!(
        determine_order_role(OrderInstruction::PostOnly, Side::Buy, false, true),
        Err(ExchangeError::OrderRejected("PostOnly order rejected".to_string()))
    );
    assert_eq!(
        determine_order_role(OrderInstruction::Cancel, Side::Buy, true, true),
        Err(ExchangeError::UnsupportedOrderKind(OrderInstruction::Cancel))
    );
}

#[test]
fn balance_requirements() {
    let spot = Instrument::new("BTC", "USDT", InstrumentKind::Spot);
    let perp = Instrument::new("ETH", "USDT", InstrumentKind::Perpetual);
    let (token, amount) = required_available_balance(&spot, Side::Buy);
    assert_eq!(token.0, "USDT");
    assert_eq!(amount, RequiredAmount::PriceTimesSize);
    let (token, amount) = required_available_balance(&spot, Side::Sell);
    assert_eq!(token.0, "BTC");
    assert_eq!(amount, RequiredAmount::Size);
    let (token, amount) = required_available_balance(&perp, Side::Buy);
    assert_eq!(token.0, "USDT");
    assert_eq!(amount, RequiredAmount::PriceTimesSizeTimesLeverage);
    let (token, amount) = required_available_balance(&perp, Side::Sell);
    assert_eq!(token.0, "ETH");
    assert_eq!(amount, RequiredAmount::SizeTimesLeverage);
}

#[test]
fn banded_balance_requirements() {
    let inside = PriceBand { below_ask_floor: false, above_bid_ceiling: false };
    let low = PriceBand { below_ask_floor: true, above_bid_ceiling: false };
    let both = PriceBand { below_ask_floor: true, above_bid_ceiling: true };
    let spot = Instrument::new("BTC", "USDT", InstrumentKind::Spot);
    let future = Instrument::new("BTC", "USDT", InstrumentKind::Future);
    let (t, a) = banded_required_balance(&spot, Side::Buy, inside).unwrap();
    assert_eq!((t.0.as_str(), a), ("USDT", BandedAmount::LatestAskTimesSize));
    let (t, a) = banded_required_balance(&spot, Side::Sell, inside).unwrap();
    assert_eq!((t.0.as_str(), a), ("BTC", BandedAmount::LatestBidTimesSize));
    let (t, a) = banded_required_balance(&future, Side::Sell, inside).unwrap();
    assert_eq!((t.0.as_str(), a), ("USDT", BandedAmount::PriceTimesSizeTimesLeverage));
    assert_eq!(
        banded_required_balance(&spot, Side::Buy, low).unwrap_err(),
        ExchangeError::OrderRejected("Buy order price is too low compared to the market".to_string())
    );
    assert_eq!(
        banded_required_balance(&spot, Side::Sell, both).unwrap_err(),
        ExchangeError::OrderRejected("Sell order price is too high compared to the market".to_string())
    );
    assert_eq!(
        banded_required_balance(&future, Side::Sell, low).unwrap_err(),
        ExchangeError::OrderRejected("Sell order price is too low compared to the market".to_string())
    );
}

#[test]
fn position_handling_in_net_mode() {
    let net = PositionDirectionMode::Net;
    assert_eq!(determine_handling_type(net, false, false, Side::Buy, SizeComparison::Larger), PositionHandlingKind::OpenBrandNewPosition);
    assert_eq!(determine_handling_type(net, true, false, Side::Buy, SizeComparison::Larger), PositionHandlingKind::UpdateExisting);
    assert_eq!(determine_handling_type(net, true, false, Side::Sell, SizeComparison::Same), PositionHandlingKind::CloseComplete);
    assert_eq!(determine_handling_type(net, true, false, Side::Sell, SizeComparison::Smaller), PositionHandlingKind::CloseCompleteAndReverse);
    assert_eq!(determine_handling_type(net, true, false, Side::Sell, SizeComparison::Larger), PositionHandlingKind::ClosePartial);
    assert_eq!(determine_handling_type(net, false, true, Side::Buy, SizeComparison::Same), PositionHandlingKind::CloseComplete);
    assert_eq!(determine_handling_type(net, false, true, Side::Sell, SizeComparison::Same), PositionHandlingKind::UpdateExisting);
}

#[test]
fn position_handling_in_long_short_mode() {
    let ls = PositionDirectionMode::LongShort;
    assert_eq!(determine_handling_type(ls, true, false, Side::Buy, SizeComparison::Same), PositionHandlingKind::UpdateExisting);
    assert_eq!(determine_handling_type(ls, true, false, Side::Sell, SizeComparison::Same), PositionHandlingKind::OpenBrandNewPosition);
    assert_eq!(determine_handling_type(ls, false, true, Side::Sell, SizeComparison::Smaller), PositionHandlingKind::UpdateExisting);
    assert_eq!(determine_handling_type(ls, false, false, Side::Sell, SizeComparison::Smaller), PositionHandlingKind::OpenBrandNewPosition);
}

#[test]
fn backtest_keeps_the_event_timestamp() {
    assert_eq!(update_exchange_ts(SandboxMode::Backtest, 1625247600000), 1625247600000);
    let online = update_exchange_ts(SandboxMode::Online, 1);
    assert!(online > 1_600_000_000);
}

#[test]
fn tokens_compare_by_symbol() {
    assert!(Token("BTC".to_string()).same_as(&Token("BTC".to_string())));
    assert!(!Token("BTC".to_string()).same_as(&Token("btc".to_string())));
    let a = Instrument::new("BTC", "USDT", InstrumentKind::Spot);
    assert!(a.same_as(&a.duplicate()));
    assert!(!a.same_as(&Instrument::new("BTC", "USDT", InstrumentKind::Perpetual)));
}

#[test]
fn config_of_the_same_side_comes_first() {
    let r = handle_config_inheritance(Some((PositionDirectionMode::LongShort, 1u8)), Some((PositionDirectionMode::Net, 2u8)));
    assert_eq!(r, Ok(1));
}

#[test]
fn config_of_the_other_side_is_inherited_in_net_mode_only() {
    assert_eq!(handle_config_inheritance(None, Some((PositionDirectionMode::Net, 2u8))), Ok(2));
    assert_eq!(
        handle_config_inheritance(None, Some((PositionDirectionMode::LongShort, 2u8))),
        Err(ExchangeError::ConfigInheritanceNotAllowed)
    );
}

#[test]
fn config_missing_on_both_sides_is_refused() {
    assert_eq!(handle_config_inheritance::<u8>(None, None), Err(ExchangeError::ConfigMissing));
}

#[test]
fn exchange_ts_follows_the_mode() {
    assert_eq!(exchange_ts_for(SandboxMode::Backtest, 1625247600000, Some(5)), 1625247600000);
    assert_eq!(exchange_ts_for(SandboxMode::Online, 1625247600000, Some(1700000000)), 1700000000);
    assert_eq!(exchange_ts_for(SandboxMode::Online, 1625247600000, None), 0);
}

#[test]
fn open_orders_lock_quote_for_buys_and_base_for_sells() {
    let positions: AccountPositions<u8> = AccountPositions::new();
    let eth = Instrument::new("ETH", "USDT", InstrumentKind::Perpetual);
    let buy = open_order_lock_token(&positions, PositionDirectionMode::Net, PositionMarginMode::Isolated, &eth, Side::Buy);
    assert_eq!(buy.unwrap().0, "USDT");
    let sell = open_order_lock_token(&positions, PositionDirectionMode::LongShort, PositionMarginMode::Isolated, &eth, Side::Sell);
    assert_eq!(sell.unwrap().0, "ETH");
}

#[test]
fn net_mode_refuses_an_open_order_against_a_held_position() {
    let mut positions: AccountPositions<u8> = AccountPositions::new();
    let eth = Instrument::new("ETH", "USDT", InstrumentKind::Future);
    positions.futures_pos.push(PositionSlot { instrument: Instrument::new("ETH", "USDT", InstrumentKind::Future), side: Side::Sell, detail: 1 });
    let refused = open_order_lock_token(&positions, PositionDirectionMode::Net, PositionMarginMode::Cross, &eth, Side::Buy);
    assert_eq!(refused, Err(ExchangeError::InvalidDirection));
    let long_short = open_order_lock_token(&positions, PositionDirectionMode::LongShort, PositionMarginMode::Isolated, &eth, Side::Buy);
    assert_eq!(long_short.unwrap().0, "USDT");
}
