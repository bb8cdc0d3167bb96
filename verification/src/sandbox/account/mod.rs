//! The rules by which the sandbox account accepts, places and settles
//! orders: request validation, maker/taker roles, balance requirements and
//! the handling of trades against open positions.
pub mod account_config;
pub mod account_latency;
pub mod pending_registry;
pub mod positions;

use vstd::prelude::*;
use vstd::string::*;
use vstd::utf8::encode_utf8;
use crate::common::{
    ClientOrderId, Exchange, ExchangeError, Instrument, InstrumentKind, Order, OrderId, OrderInstruction, OrderRole,
    PositionDirectionMode, PositionMarginMode, RequestCancel, Side, Token,
};
use crate::sandbox::instrument_orders::{cancel_matches, not_found_error, other_side, InstrumentOrders};
use positions::{opposite_exists, AccountPositions};
use crate::text::byte_len;
use account_config::SandboxMode;
use std::time::{SystemTime, UNIX_EPOCH};

verus! {

/// Reads the system clock: the whole seconds since the UNIX epoch
/// (`SystemTime::now`, `duration_since(UNIX_EPOCH)`, `as_secs`), or `None`
/// when the clock is set before the epoch. Nothing is stated of the value:
/// it is the time.
#[verifier::external_body]
fn system_clock_secs() -> Option<i64> {
    match SystemTime::now().duration_since(UNIX_EPOCH) {
        Ok(d) => Some(d.as_secs() as i64),
        Err(_) => None,
    }
}

/// The exchange timestamp to record for an event stamped `timestamp`, given
/// the clock reading `clock_secs` (whole seconds since the UNIX epoch, or
/// `None` when the clock reads before the epoch): in a backtest the event's
/// own timestamp; online, the clock reading, or zero without one.
pub fn exchange_ts_for(mode: SandboxMode, timestamp: i64, clock_secs: Option<i64>) -> (r: i64)
    ensures
        r == match mode {
            SandboxMode::Backtest => timestamp,
            SandboxMode::Online => match clock_secs {
                Some(now) => now,
                None => 0,
            },
        },
{
    match mode {
        SandboxMode::Backtest => timestamp,
        SandboxMode::Online => match clock_secs {
            Some(now) => now,
            None => 0,
        },
    }
}

/// The exchange timestamp to record for an event stamped `timestamp`: in a
/// backtest the event's own timestamp; online, the current time in seconds
/// since the UNIX epoch read from the system clock (see
/// [`exchange_ts_for`]); the clock is read only online.
pub fn update_exchange_ts(mode: SandboxMode, timestamp: i64) -> (r: i64)
    ensures
        mode == SandboxMode::Backtest ==> r == timestamp,
{
    let clock = match mode {
        SandboxMode::Backtest => None,
        SandboxMode::Online => system_clock_secs(),
    };
    exchange_ts_for(mode, timestamp, clock)
}

/// Why a cancel request is refused, as the message of
/// `ExchangeError::InvalidRequestCancel`; `None` when it is well formed. The
/// checks run in order: an identifier must be given; an exchange identifier
/// must not be zero; a client identifier must have at least five bytes; base
/// and quote must differ.
pub open spec fn cancel_request_fault(order: Order<RequestCancel>) -> Option<Seq<char>> {
    if order.state.id is None && order.cid is None {
        Some("Both OrderId and ClientOrderId are missing"@)
    } else if order.state.id matches Some(id) && id.0 == 0 {
        Some("OrderId is missing or invalid"@)
    } else if order.cid matches Some(c) && (c@.len() == 0 || encode_utf8(c@).len() < 5) {
        Some("ClientOrderId is missing or invalid"@)
    } else if order.instrument.base@ == order.instrument.quote@ {
        Some("Base and Quote tokens must be different"@)
    } else {
        None
    }
}

/// The role of an order given its instruction, side and whether its limit
/// price is at or above, and at or below, the current market price. Market,
/// immediate-or-cancel and fill-or-kill orders take liquidity; limit and
/// good-til-cancelled orders make it when they do not cross the market
/// (buy at or above it, sell at or below it is how this exchange words it);
/// a post-only order that would not make liquidity is refused (`None`).
pub open spec fn order_role_of(
    instruction: OrderInstruction,
    side: Side,
    at_or_above_market: bool,
    at_or_below_market: bool,
) -> Option<OrderRole> {
    let rests = match side {
        Side::Buy => at_or_above_market,
        Side::Sell => at_or_below_market,
    };
    match instruction {
        OrderInstruction::Market | OrderInstruction::ImmediateOrCancel | OrderInstruction::FillOrKill => Some(OrderRole::Taker),
        OrderInstruction::Limit | OrderInstruction::GoodTilCancelled => Some(if rests { OrderRole::Maker } else { OrderRole::Taker }),
        OrderInstruction::PostOnly => if rests { Some(OrderRole::Maker) } else { None },
        OrderInstruction::Cancel => None,
    }
}

/// Decides the maker/taker role of a new order (see [`order_role_of`]).
/// A post-only order that would take liquidity is rejected with
/// `OrderRejected("PostOnly order rejected")`; a cancel instruction has no
/// role and is `UnsupportedOrderKind`.
pub fn determine_order_role(
    instruction: OrderInstruction,
    side: Side,
    at_or_above_market: bool,
    at_or_below_market: bool,
) -> (r: Result<OrderRole, ExchangeError>)
    ensures
        match r {
            Ok(role) => order_role_of(instruction, side, at_or_above_market, at_or_below_market) == Some(role),
            Err(e) => {
                &&& order_role_of(instruction, side, at_or_above_market, at_or_below_market) is None
                &&& instruction == OrderInstruction::PostOnly ==> (e matches ExchangeError::OrderRejected(m) && m@ == "PostOnly order rejected"@)
                &&& instruction == OrderInstruction::Cancel ==> e == ExchangeError::UnsupportedOrderKind(instruction)
            },
        },
{
    let rests = match side {
        Side::Buy => at_or_above_market,
        Side::Sell => at_or_below_market,
    };
    match instruction {
        OrderInstruction::Market | OrderInstruction::ImmediateOrCancel | OrderInstruction::FillOrKill => Ok(OrderRole::Taker),
        OrderInstruction::Limit | OrderInstruction::GoodTilCancelled => {
            if rests {
                Ok(OrderRole::Maker)
            } else {
                Ok(OrderRole::Taker)
            }
        },
        OrderInstruction::PostOnly => {
            if rests {
                Ok(OrderRole::Maker)
            } else {
                Err(ExchangeError::OrderRejected(String::from_str("PostOnly order rejected")))
            }
        },
        OrderInstruction::Cancel => Err(ExchangeError::UnsupportedOrderKind(instruction)),
    }
}

/// Every order instruction is accepted by the sandbox.
pub fn validate_order_instruction(kind: OrderInstruction) -> (r: Result<(), ExchangeError>)
    ensures
        r is Ok,
{
    match kind {
        OrderInstruction::Market
        | OrderInstruction::Limit
        | OrderInstruction::ImmediateOrCancel
        | OrderInstruction::FillOrKill
        | OrderInstruction::PostOnly
        | OrderInstruction::GoodTilCancelled
        | OrderInstruction::Cancel => Ok(()),
    }
}

/// Checks a cancel request (see [`cancel_request_fault`]).
pub fn validate_order_request_cancel(order: &Order<RequestCancel>) -> (r: Result<(), ExchangeError>)
    requires
        order.cid matches Some(c) ==> encode_utf8(c@).len() <= usize::MAX,
    ensures
        match r {
            Ok(()) => cancel_request_fault(*order) is None,
            Err(e) => e matches ExchangeError::InvalidRequestCancel(m) && cancel_request_fault(*order) == Some(m@),
        },
{
    if order.state.id.is_none() && order.cid.is_none() {
        return Err(ExchangeError::InvalidRequestCancel(String::from_str("Both OrderId and ClientOrderId are missing")));
    }
    if let Some(id) = &order.state.id {
        if id.value() == 0 {
            return Err(ExchangeError::InvalidRequestCancel(String::from_str("OrderId is missing or invalid")));
        }
    }
    if let Some(cid) = &order.cid {
        let text = cid.0.as_str();
        if text.is_empty() || byte_len(text) < 5 {
            return Err(ExchangeError::InvalidRequestCancel(String::from_str("ClientOrderId is missing or invalid")));
        }
    }
    if order.instrument.base.same_as(&order.instrument.quote) {
        return Err(ExchangeError::InvalidRequestCancel(String::from_str("Base and Quote tokens must be different")));
    }
    Ok(())
}

/// How the balance that an order locks is computed from its price and size.
#[derive(Clone, Copy, Debug, PartialEq, Eq, Structural)]
pub enum RequiredAmount {
    /// The order's price (or the current price) times its size.
    PriceTimesSize,
    /// The order's size.
    Size,
    /// Price times size times the account's leverage rate.
    PriceTimesSizeTimesLeverage,
    /// Size times the account's leverage rate.
    SizeTimesLeverage,
}

/// The token whose available balance an order needs and how much of it:
/// buying spends the quote token at the current price, selling spends the
/// base token; for perpetuals and futures the amount is scaled by leverage.
pub open spec fn requirement_of(instrument: Instrument, side: Side) -> (Seq<char>, RequiredAmount) {
    let leveraged = instrument.kind != InstrumentKind::Spot;
    match side {
        Side::Buy => (instrument.quote@, if leveraged { RequiredAmount::PriceTimesSizeTimesLeverage } else { RequiredAmount::PriceTimesSize }),
        Side::Sell => (instrument.base@, if leveraged { RequiredAmount::SizeTimesLeverage } else { RequiredAmount::Size }),
    }
}

/// The balance requirement of an order on a spot, perpetual or future
/// instrument (see [`requirement_of`]).
pub fn required_available_balance(instrument: &Instrument, side: Side) -> (r: (&Token, RequiredAmount))
    requires
        instrument.kind == InstrumentKind::Spot || instrument.kind == InstrumentKind::Perpetual
            || instrument.kind == InstrumentKind::Future,
    ensures
        (r.0@, r.1) == requirement_of(*instrument, side),
{
    let leveraged = instrument.kind != InstrumentKind::Spot;
    match side {
        Side::Buy => (&instrument.quote, if leveraged { RequiredAmount::PriceTimesSizeTimesLeverage } else { RequiredAmount::PriceTimesSize }),
        Side::Sell => (&instrument.base, if leveraged { RequiredAmount::SizeTimesLeverage } else { RequiredAmount::Size }),
    }
}

/// How the locked balance of an order is computed when the market prices
/// bound the accepted order prices.
#[derive(Clone, Copy, Debug, PartialEq, Eq, Structural)]
pub enum BandedAmount {
    /// The latest ask times the order's size.
    LatestAskTimesSize,
    /// The latest bid times the order's size.
    LatestBidTimesSize,
    /// The order's price times its size times the account's leverage rate.
    PriceTimesSizeTimesLeverage,
}

/// Where an order's price stands against the market band: below the latest
/// ask lowered by the allowed deviation, and above the latest bid raised by it.
#[derive(Clone, Copy, Debug, PartialEq, Eq, Structural)]
pub struct PriceBand {
    pub below_ask_floor: bool,
    pub above_bid_ceiling: bool,
}

/// The outcome of checking an order's price against the band: the message
/// of the `OrderRejected` error, or the token and amount to lock. A buy is
/// checked against the floor first, a sell against the ceiling first. Spot
/// buys lock the quote token at the latest ask and spot sells the base
/// token at the latest bid; perpetual and future orders of either side lock
/// the quote token at their price, scaled by leverage.
pub open spec fn banded_requirement_of(instrument: Instrument, side: Side, band: PriceBand) -> Result<(Seq<char>, BandedAmount), Seq<char>> {
    match side {
        Side::Buy => if band.below_ask_floor {
            Err("Buy order price is too low compared to the market"@)
        } else if band.above_bid_ceiling {
            Err("Buy order price is too high compared to the market"@)
        } else if instrument.kind == InstrumentKind::Spot {
            Ok((instrument.quote@, BandedAmount::LatestAskTimesSize))
        } else {
            Ok((instrument.quote@, BandedAmount::PriceTimesSizeTimesLeverage))
        },
        Side::Sell => if band.above_bid_ceiling {
            Err("Sell order price is too high compared to the market"@)
        } else if band.below_ask_floor {
            Err("Sell order price is too low compared to the market"@)
        } else if instrument.kind == InstrumentKind::Spot {
            Ok((instrument.base@, BandedAmount::LatestBidTimesSize))
        } else {
            Ok((instrument.quote@, BandedAmount::PriceTimesSizeTimesLeverage))
        },
    }
}

/// Checks an order's price against the market band and gives its balance
/// requirement (see [`banded_requirement_of`]), for spot, perpetual and
/// future instruments.
pub fn banded_required_balance(instrument: &Instrument, side: Side, band: PriceBand) -> (r: Result<(&Token, BandedAmount), ExchangeError>)
    requires
        instrument.kind == InstrumentKind::Spot || instrument.kind == InstrumentKind::Perpetual
            || instrument.kind == InstrumentKind::Future,
    ensures
        match r {
            Ok((t, a)) => banded_requirement_of(*instrument, side, band) == Ok::<(Seq<char>, BandedAmount), Seq<char>>((t@, a)),
            Err(e) => e matches ExchangeError::OrderRejected(m) && banded_requirement_of(*instrument, side, band) == Err::<(Seq<char>, BandedAmount), Seq<char>>(m@),
        },
{
    let spot = instrument.kind == InstrumentKind::Spot;
    match side {
        Side::Buy => {
            if band.below_ask_floor {
                Err(ExchangeError::OrderRejected(String::from_str("Buy order price is too low compared to the market")))
            } else if band.above_bid_ceiling {
                Err(ExchangeError::OrderRejected(String::from_str("Buy order price is too high compared to the market")))
            } else if spot {
                Ok((&instrument.quote, BandedAmount::LatestAskTimesSize))
            } else {
                Ok((&instrument.quote, BandedAmount::PriceTimesSizeTimesLeverage))
            }
        },
        Side::Sell => {
            if band.above_bid_ceiling {
                Err(ExchangeError::OrderRejected(String::from_str("Sell order price is too high compared to the market")))
            } else if band.below_ask_floor {
                Err(ExchangeError::OrderRejected(String::from_str("Sell order price is too low compared to the market")))
            } else if spot {
                Ok((&instrument.base, BandedAmount::LatestBidTimesSize))
            } else {
                Ok((&instrument.quote, BandedAmount::PriceTimesSizeTimesLeverage))
            }
        },
    }
}

/// How the size of an existing position compares with a trade's size.
#[derive(Clone, Copy, Debug, PartialEq, Eq, Structural)]
pub enum SizeComparison {
    /// The position is smaller than the trade.
    Smaller,
    /// The position and the trade have the same size.
    Same,
    /// The position is larger than the trade (or the sizes are unordered).
    Larger,
}

/// What a client trade does to the account's positions.
#[derive(Clone, Copy, Debug, PartialEq, Eq, Structural)]
pub enum PositionHandlingKind {
    OpenBrandNewPosition,
    ClosePartial,
    CloseComplete,
    CloseCompleteAndReverse,
    UpdateExisting,
}

/// The handling of a trade. In net mode the side of the held position (long
/// first, then short, else the trade's own side) decides: a trade against it
/// closes the position completely when the sizes match, closes and reverses
/// it when the trade is larger, and closes part of it otherwise; a trade with
/// it updates a held position or opens a new one. In long/short mode a trade
/// updates the position of its own side when there is one and opens a new
/// position otherwise.
pub open spec fn position_handling_of(
    mode: PositionDirectionMode,
    has_long: bool,
    has_short: bool,
    trade_side: Side,
    position_vs_trade: SizeComparison,
) -> PositionHandlingKind {
    let position_side = if has_long { Side::Buy } else if has_short { Side::Sell } else { trade_side };
    match mode {
        PositionDirectionMode::Net => if position_side != trade_side {
            match position_vs_trade {
                SizeComparison::Same => PositionHandlingKind::CloseComplete,
                SizeComparison::Smaller => PositionHandlingKind::CloseCompleteAndReverse,
                SizeComparison::Larger => PositionHandlingKind::ClosePartial,
            }
        } else if has_long || has_short {
            PositionHandlingKind::UpdateExisting
        } else {
            PositionHandlingKind::OpenBrandNewPosition
        },
        PositionDirectionMode::LongShort => if (trade_side == Side::Buy && has_long) || (trade_side == Side::Sell && has_short) {
            PositionHandlingKind::UpdateExisting
        } else {
            PositionHandlingKind::OpenBrandNewPosition
        },
    }
}

/// Decides what a client trade does to the positions (see [`position_handling_of`]).
pub fn determine_handling_type(
    mode: PositionDirectionMode,
    has_long: bool,
    has_short: bool,
    trade_side: Side,
    position_vs_trade: SizeComparison,
) -> (r: PositionHandlingKind)
    ensures
        r == position_handling_of(mode, has_long, has_short, trade_side, position_vs_trade),
{
    let position_side = if has_long {
        Side::Buy
    } else if has_short {
        Side::Sell
    } else {
        trade_side
    };
    match mode {
        PositionDirectionMode::Net => {
            if position_side != trade_side {
                match position_vs_trade {
                    SizeComparison::Same => PositionHandlingKind::CloseComplete,
                    SizeComparison::Smaller => PositionHandlingKind::CloseCompleteAndReverse,
                    SizeComparison::Larger => PositionHandlingKind::ClosePartial,
                }
            } else if has_long || has_short {
                PositionHandlingKind::UpdateExisting
            } else {
                PositionHandlingKind::OpenBrandNewPosition
            }
        },
        PositionDirectionMode::LongShort => {
            if (trade_side == Side::Buy && has_long) || (trade_side == Side::Sell && has_short) {
                PositionHandlingKind::UpdateExisting
            } else {
                PositionHandlingKind::OpenBrandNewPosition
            }
        },
    }
}

} // verus!

verus! {

/// In long/short mode a trade never closes a position: it updates the
/// position of its own side or opens one. In net mode a trade without any
/// held position opens one, and a trade closes a position only when the
/// held position is on the other side.
pub proof fn lemma_handling_closes_only_against_held(
    mode: PositionDirectionMode,
    has_long: bool,
    has_short: bool,
    trade_side: Side,
    position_vs_trade: SizeComparison,
)
    ensures
        ({
            let h = position_handling_of(mode, has_long, has_short, trade_side, position_vs_trade);
            let closes = h == PositionHandlingKind::CloseComplete || h == PositionHandlingKind::ClosePartial
                || h == PositionHandlingKind::CloseCompleteAndReverse;
            &&& mode == PositionDirectionMode::LongShort ==> !closes
            &&& (mode == PositionDirectionMode::Net && !has_long && !has_short) ==> h == PositionHandlingKind::OpenBrandNewPosition
            &&& closes ==> ((has_long && trade_side == Side::Sell) || (!has_long && has_short && trade_side == Side::Buy))
        }),
{
}

/// In net mode a trade against the held position (a sell against a long,
/// a buy against a short) closes it: completely when the two sizes are the
/// same, completely and then reversed when the position is smaller than the
/// trade, partly when it is larger; which side the held position is on
/// does not matter. A trade on the side of the held position updates it.
pub proof fn lemma_net_trade_against_position(
    has_long: bool,
    has_short: bool,
    trade_side: Side,
    position_vs_trade: SizeComparison,
)
    ensures
        ({
            let h = position_handling_of(PositionDirectionMode::Net, has_long, has_short, trade_side, position_vs_trade);
            let against = (has_long && trade_side == Side::Sell) || (!has_long && has_short && trade_side == Side::Buy);
            let with = (has_long && trade_side == Side::Buy) || (!has_long && has_short && trade_side == Side::Sell);
            &&& (against && position_vs_trade == SizeComparison::Same) ==> h == PositionHandlingKind::CloseComplete
            &&& (against && position_vs_trade == SizeComparison::Smaller) ==> h == PositionHandlingKind::CloseCompleteAndReverse
            &&& (against && position_vs_trade == SizeComparison::Larger) ==> h == PositionHandlingKind::ClosePartial
            &&& with ==> h == PositionHandlingKind::UpdateExisting
        }),
        position_handling_of(PositionDirectionMode::Net, true, false, Side::Sell, position_vs_trade) == position_handling_of(
            PositionDirectionMode::Net,
            false,
            true,
            Side::Buy,
            position_vs_trade,
        ),
{
}

/// In long/short mode a trade never closes anything: it updates the
/// position held on its own side, or opens one when there is none.
pub proof fn lemma_long_short_trade(has_long: bool, has_short: bool, trade_side: Side, position_vs_trade: SizeComparison)
    ensures
        ({
            let h = position_handling_of(PositionDirectionMode::LongShort, has_long, has_short, trade_side, position_vs_trade);
            let held_on_side = (trade_side == Side::Buy && has_long) || (trade_side == Side::Sell && has_short);
            &&& held_on_side ==> h == PositionHandlingKind::UpdateExisting
            &&& !held_on_side ==> h == PositionHandlingKind::OpenBrandNewPosition
        }),
{
}

/// What an order needs available: a buy needs the quote token, a sell the
/// base token. On a spot instrument a buy needs price times size and a sell
/// its size; on a perpetual or a future, alike, both are scaled by the
/// account's leverage rate.
pub proof fn lemma_requirement_by_kind(instrument: Instrument, side: Side)
    ensures
        requirement_of(instrument, side).0 == (if side == Side::Buy { instrument.quote@ } else { instrument.base@ }),
        (instrument.kind == InstrumentKind::Spot && side == Side::Buy) ==> requirement_of(instrument, side).1
            == RequiredAmount::PriceTimesSize,
        (instrument.kind == InstrumentKind::Spot && side == Side::Sell) ==> requirement_of(instrument, side).1
            == RequiredAmount::Size,
        ((instrument.kind == InstrumentKind::Perpetual || instrument.kind == InstrumentKind::Future) && side == Side::Buy)
            ==> requirement_of(instrument, side).1 == RequiredAmount::PriceTimesSizeTimesLeverage,
        ((instrument.kind == InstrumentKind::Perpetual || instrument.kind == InstrumentKind::Future) && side == Side::Sell)
            ==> requirement_of(instrument, side).1 == RequiredAmount::SizeTimesLeverage,
{
}

/// The band check passes exactly when the order's price is neither below
/// the ask floor nor above the bid ceiling. A perpetual or future order that
/// passes locks the quote token, whichever its side, at its price scaled by
/// leverage; a spot buy locks the quote token at the latest ask and a spot
/// sell the base token at the latest bid.
pub proof fn lemma_banded_requirement(instrument: Instrument, side: Side, band: PriceBand)
    ensures
        banded_requirement_of(instrument, side, band) is Ok <==> (!band.below_ask_floor && !band.above_bid_ceiling),
        ((instrument.kind == InstrumentKind::Perpetual || instrument.kind == InstrumentKind::Future)
            && !band.below_ask_floor && !band.above_bid_ceiling) ==> banded_requirement_of(instrument, side, band)
            == Ok::<(Seq<char>, BandedAmount), Seq<char>>((instrument.quote@, BandedAmount::PriceTimesSizeTimesLeverage)),
        (instrument.kind == InstrumentKind::Spot && side == Side::Buy && !band.below_ask_floor && !band.above_bid_ceiling)
            ==> banded_requirement_of(instrument, side, band) == Ok::<(Seq<char>, BandedAmount), Seq<char>>(
            (instrument.quote@, BandedAmount::LatestAskTimesSize),
        ),
        (instrument.kind == InstrumentKind::Spot && side == Side::Sell && !band.below_ask_floor && !band.above_bid_ceiling)
            ==> banded_requirement_of(instrument, side, band) == Ok::<(Seq<char>, BandedAmount), Seq<char>>(
            (instrument.base@, BandedAmount::LatestBidTimesSize),
        ),
        banded_requirement_of(instrument, side, band) matches Ok((t, _)) ==> (t == instrument.quote@ || (
        instrument.kind == InstrumentKind::Spot && side == Side::Sell)),
{
}

/// Market, immediate-or-cancel and fill-or-kill orders always take
/// liquidity; a post-only order never does: it makes liquidity or is refused.
pub proof fn lemma_role_laws(instruction: OrderInstruction, side: Side, at_or_above: bool, at_or_below: bool)
    ensures
        (instruction == OrderInstruction::Market || instruction == OrderInstruction::ImmediateOrCancel
            || instruction == OrderInstruction::FillOrKill) ==> order_role_of(instruction, side, at_or_above, at_or_below)
            == Some(OrderRole::Taker),
        instruction == OrderInstruction::PostOnly ==> order_role_of(instruction, side, at_or_above, at_or_below)
            != Some(OrderRole::Taker),
        instruction == OrderInstruction::Limit ==> order_role_of(instruction, side, at_or_above, at_or_below)
            == order_role_of(OrderInstruction::GoodTilCancelled, side, at_or_above, at_or_below),
{
}

/// The configuration a position opened by a trade takes: the one set for
/// the trade's side; failing that, the one set for the other side, which
/// it may inherit only in net mode (`ConfigInheritanceNotAllowed`
/// otherwise); with neither set, `ConfigMissing`. Each configuration comes
/// with its position direction mode.
pub fn handle_config_inheritance<C>(
    same_side: Option<(PositionDirectionMode, C)>,
    opposite_side: Option<(PositionDirectionMode, C)>,
) -> (r: Result<C, ExchangeError>)
    ensures
        match (same_side, opposite_side) {
            (Some((_, c)), _) => r == Ok::<C, ExchangeError>(c),
            (None, Some((PositionDirectionMode::Net, c))) => r == Ok::<C, ExchangeError>(c),
            (None, Some((PositionDirectionMode::LongShort, _))) => r == Err::<C, ExchangeError>(
                ExchangeError::ConfigInheritanceNotAllowed,
            ),
            (None, None) => r == Err::<C, ExchangeError>(ExchangeError::ConfigMissing),
        },
{
    if let Some((_, config)) = same_side {
        return Ok(config);
    }
    match opposite_side {
        Some((PositionDirectionMode::Net, config)) => Ok(config),
        Some((PositionDirectionMode::LongShort, _)) => Err(ExchangeError::ConfigInheritanceNotAllowed),
        None => Err(ExchangeError::ConfigMissing),
    }
}

/// The token in which an order to open locks its required balance: the
/// quote token for a buy, the base token for a sell. In net mode an order
/// against a held position of the other direction is refused first with
/// `InvalidDirection`. Only perpetuals, futures and leveraged tokens are
/// handled, and only isolated margin.
pub fn open_order_lock_token<'a, P>(
    positions: &AccountPositions<P>,
    position_mode: PositionDirectionMode,
    margin_mode: PositionMarginMode,
    instrument: &'a Instrument,
    side: Side,
) -> (r: Result<&'a Token, ExchangeError>)
    requires
        instrument.kind == InstrumentKind::Perpetual || instrument.kind == InstrumentKind::Future || instrument.kind
            == InstrumentKind::CryptoLeveragedToken,
        margin_mode == PositionMarginMode::Isolated || (position_mode == PositionDirectionMode::Net && opposite_exists(
            positions.list_of(instrument.kind),
            instrument@,
            side,
        )),
    ensures
        (position_mode == PositionDirectionMode::Net && opposite_exists(positions.list_of(instrument.kind), instrument@, side))
            ==> r == Err::<&Token, ExchangeError>(ExchangeError::InvalidDirection),
        !(position_mode == PositionDirectionMode::Net && opposite_exists(positions.list_of(instrument.kind), instrument@, side))
            ==> (r matches Ok(t) && t@ == match side {
            Side::Buy => instrument.quote@,
            Side::Sell => instrument.base@,
        }),
{
    if position_mode == PositionDirectionMode::Net {
        match positions.check_position_direction_conflict(instrument, side) {
            Ok(()) => {},
            Err(e) => return Err(e),
        }
    }
    match side {
        Side::Buy => Ok(&instrument.quote),
        Side::Sell => Ok(&instrument.base),
    }
}

/// Cancels the resting order that `request` names on `book`, the book of
/// the request's instrument. A request that fails the checks of
/// [`validate_order_request_cancel`] is refused with that error; otherwise
/// the order is taken off the side of the request as
/// [`InstrumentOrders::remove_for_cancel`] does, and returned with its rank
/// and exchange identifier, or `OrderNotFound` comes back when no order
/// matches. A refused request leaves the book unchanged. Releasing the
/// order's balance and announcing the cancellation are the caller's part.
pub fn atomic_cancel<S: Sync>(book: &mut InstrumentOrders<S>, request: &Order<RequestCancel>) -> (r: Result<
    (u64, OrderId, Order<S>),
    ExchangeError,
>)
    requires
        request.cid matches Some(c) ==> encode_utf8(c@).len() <= usize::MAX,
    ensures
        match cancel_request_fault(*request) {
            Some(m) => {
                &&& r matches Err(ExchangeError::InvalidRequestCancel(t)) && t@ == m
                &&& *final(book) == *old(book)
            },
            None => {
                let before = old(book).side_entries(request.side);
                &&& final(book).side_entries(other_side(request.side)) == old(book).side_entries(other_side(request.side))
                &&& final(book).batch_id == old(book).batch_id
                &&& match r {
                    Ok(e) => exists|k: int|
                        0 <= k < before.len() && cancel_matches(#[trigger] before[k], *request) && e == before[k]
                            && final(book).side_entries(request.side) == before.remove(k),
                    Err(e) => {
                        &&& forall|k: int| 0 <= k < before.len() ==> !cancel_matches(#[trigger] before[k], *request)
                        &&& not_found_error(*request, e)
                        &&& final(book).side_entries(request.side) == before
                    },
                }
            },
        },
{
    match validate_order_request_cancel(request) {
        Err(e) => Err(e),
        Ok(()) => book.remove_for_cancel(request),
    }
}

/// Whether `req` is the request that cancels the resting order `e` at
/// `timestamp`: it names the order by its exchange identifier and carries
/// the order's instruction, instrument, client identifier and side, on the
/// sandbox exchange.
pub open spec fn cancels_entry<S>(req: Order<RequestCancel>, e: (u64, OrderId, Order<S>), timestamp: i64) -> bool {
    &&& req.state.id == Some(e.1)
    &&& req.instruction == e.2.instruction
    &&& req.exchange == Exchange::SandBox
    &&& req.instrument@ == e.2.instrument@
    &&& req.timestamp == timestamp
    &&& req.cid is Some == e.2.cid is Some
    &&& (req.cid matches Some(c) ==> c@ == e.2.cid->0@)
    &&& req.side == e.2.side
}

/// The requests that cancel every order resting on `book` at `timestamp`,
/// bids first, then asks, each in book order (see [`cancels_entry`]).
pub fn cancel_all_requests<S>(book: &InstrumentOrders<S>, timestamp: i64) -> (r: Vec<Order<RequestCancel>>)
    ensures
        r@.len() == book.bids@.len() + book.asks@.len(),
        forall|i: int| 0 <= i < r@.len() ==> cancels_entry(#[trigger] r@[i], (book.bids@ + book.asks@)[i], timestamp),
{
    let mut out: Vec<Order<RequestCancel>> = Vec::new();
    let mut i: usize = 0;
    while i < book.bids.len()
        invariant
            i <= book.bids@.len(),
            out@.len() == i,
            forall|j: int| 0 <= j < i ==> cancels_entry(#[trigger] out@[j], (book.bids@ + book.asks@)[j], timestamp),
        decreases book.bids@.len() - i,
    {
        out.push(cancel_request_for(&book.bids[i], timestamp));
        i = i + 1;
    }
    let mut k: usize = 0;
    while k < book.asks.len()
        invariant
            k <= book.asks@.len(),
            out@.len() == book.bids@.len() + k,
            forall|j: int|
                0 <= j < book.bids@.len() + k ==> cancels_entry(#[trigger] out@[j], (book.bids@ + book.asks@)[j], timestamp),
        decreases book.asks@.len() - k,
    {
        out.push(cancel_request_for(&book.asks[k], timestamp));
        k = k + 1;
    }
    out
}

fn cancel_request_for<S>(e: &(u64, OrderId, Order<S>), timestamp: i64) -> (r: Order<RequestCancel>)
    ensures
        cancels_entry(r, *e, timestamp),
{
    let cid = match &e.2.cid {
        Some(c) => Some(ClientOrderId(c.0.clone())),
        None => None,
    };
    Order {
        instruction: e.2.instruction,
        exchange: Exchange::SandBox,
        instrument: e.2.instrument.duplicate(),
        timestamp,
        cid,
        side: e.2.side,
        state: RequestCancel { id: Some(e.1) },
    }
}

} // verus!
