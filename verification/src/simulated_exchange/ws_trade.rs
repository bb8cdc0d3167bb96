//! Market events built from trades stored in ClickHouse.
use vstd::prelude::*;
use crate::common::{Exchange, Instrument, InstrumentKind, MarketEvent, Token};
use crate::sandbox::clickhouse_trade_data::MarketTrade;
use crate::text::{decimal_i64, i64_text, lemma_i64_text_reads_back, parse_i64, signed_decimal_text};

verus! {

/// The text fields and timestamp of a trade as stored in ClickHouse.
pub struct TradeDataFromClickhouse {
    pub symbol: String,
    pub side: String,
    pub timestamp: i64,
}

/// A trade as a websocket feed reports it: instrument identifier, side,
/// price and timestamp, all as text.
#[derive(Debug)]
pub struct WsTrade {
    pub inst_id: String,
    pub side: String,
    pub px: String,
    pub ts: String,
}

/// The time that a timestamp text gives: its decimal value, or zero when it
/// is not a decimal `i64`.
pub open spec fn timestamp_of(ts: Seq<char>) -> i64 {
    match decimal_i64(ts) {
        Some(v) => v,
        None => 0,
    }
}

/// Reads a timestamp text (see [`timestamp_of`]).
pub fn timestamp_or_zero(ts: &str) -> (r: i64)
    ensures
        r == timestamp_of(ts@),
{
    match parse_i64(ts) {
        Some(v) => v,
        None => 0,
    }
}

impl WsTrade {
    /// The websocket form of a stored trade: its symbol as the instrument
    /// identifier, its side, the given text of its price, and its timestamp
    /// written in decimal.
    pub fn from_stored(symbol: String, side: String, price_text: String, timestamp: i64) -> (r: WsTrade)
        ensures
            r.inst_id == symbol,
            r.side == side,
            r.px == price_text,
            r.ts@ == signed_decimal_text(timestamp as int),
    {
        WsTrade { inst_id: symbol, side, px: price_text, ts: i64_text(timestamp) }
    }
}

/// A stored trade carried in its websocket form keeps its time: the market
/// event built from it is stamped at the stored trade's timestamp.
pub proof fn lemma_stored_timestamp_survives(timestamp: i64)
    ensures
        timestamp_of(signed_decimal_text(timestamp as int)) == timestamp,
{
    lemma_i64_text_reads_back(timestamp);
}

impl MarketEvent<WsTrade> {
    /// The market event of a websocket trade: stamped and received at the
    /// time its timestamp text gives (see [`timestamp_of`]), on the spot
    /// instrument `base/quote`.
    pub fn from_ws_trade(ws_trade: WsTrade, base: String, quote: String, exchange: Exchange) -> (r: Self)
        ensures
            r.exchange_time == timestamp_of(ws_trade.ts@),
            r.received_time == timestamp_of(ws_trade.ts@),
            r.exchange == exchange,
            r.instrument.base@ == base@,
            r.instrument.quote@ == quote@,
            r.instrument.kind == InstrumentKind::Spot,
            r.kind == ws_trade,
    {
        let timestamp = timestamp_or_zero(ws_trade.ts.as_str());
        Self::instrument_trade_event(timestamp, ws_trade, base, quote, InstrumentKind::Spot, exchange)
    }
}

impl<T> MarketEvent<T> {
    /// The market event of a trade on the instrument `base/quote` of `kind`:
    /// stamped and received at `timestamp`, carrying the trade.
    pub fn instrument_trade_event(
        timestamp: i64,
        trade: T,
        base: String,
        quote: String,
        kind: InstrumentKind,
        exchange: Exchange,
    ) -> (r: Self)
        ensures
            r.exchange_time == timestamp,
            r.received_time == timestamp,
            r.exchange == exchange,
            r.instrument.base@ == base@,
            r.instrument.quote@ == quote@,
            r.instrument.kind == kind,
            r.kind == trade,
    {
        let instrument = Instrument { base: Token(base), quote: Token(quote), kind };
        MarketEvent { exchange_time: timestamp, received_time: timestamp, exchange, instrument, kind: trade }
    }
}

impl MarketEvent<TradeDataFromClickhouse> {
    /// The market event of a stored spot trade: stamped and received at the
    /// trade's timestamp, on the spot instrument `base/quote`.
    pub fn from_trade_clickhouse(trade: TradeDataFromClickhouse, base: String, quote: String, exchange: Exchange) -> (r: Self)
        ensures
            r.exchange_time == trade.timestamp,
            r.received_time == trade.timestamp,
            r.exchange == exchange,
            r.instrument.base@ == base@,
            r.instrument.quote@ == quote@,
            r.instrument.kind == InstrumentKind::Spot,
            r.kind == trade,
    {
        let timestamp = trade.timestamp;
        Self::instrument_trade_event(timestamp, trade, base, quote, InstrumentKind::Spot, exchange)
    }
}

impl MarketEvent<MarketTrade> {
    /// The market event of a stored perpetual-swap trade on the sandbox:
    /// stamped and received at the trade's timestamp, on the perpetual
    /// instrument `base/quote`.
    pub fn from_swap_trade_clickhouse(trade: MarketTrade, base: String, quote: String) -> (r: Self)
        ensures
            r.exchange_time == trade.timestamp,
            r.received_time == trade.timestamp,
            r.exchange == Exchange::SandBox,
            r.instrument.base@ == base@,
            r.instrument.quote@ == quote@,
            r.instrument.kind == InstrumentKind::Perpetual,
            r.kind == trade,
    {
        let timestamp = trade.timestamp;
        Self::instrument_trade_event(timestamp, trade, base, quote, InstrumentKind::Perpetual, Exchange::SandBox)
    }
}

} // verus!
