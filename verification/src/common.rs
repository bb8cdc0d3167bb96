//! Vocabulary shared by the whole exchange: sides, instruments, order
//! instructions, identifiers and the exchange error type.
use vstd::prelude::*;
use vstd::string::*;

verus! {

/// The side of an order, trade or position.
#[derive(Clone, Copy, Debug, PartialEq, Eq, Hash, Structural)]
pub enum Side {
    Buy,
    Sell,
}

/// The kind of instrument traded.
#[derive(Clone, Copy, Debug, PartialEq, Eq, Hash, Structural)]
pub enum InstrumentKind {
    Spot,
    Perpetual,
    Future,
    CryptoOption,
    CryptoLeveragedToken,
    CommodityOption,
    CommodityFuture,
}

/// A currency or asset symbol, such as `BTC` or `USDT`.
#[derive(Debug, PartialEq, Eq, Hash)]
pub struct Token(pub String);

impl View for Token {
    type V = Seq<char>;

    open spec fn view(&self) -> Seq<char> {
        self.0@
    }
}

impl Token {
    /// A copy of the token with the same symbol.
    pub fn duplicate(&self) -> (r: Token)
        ensures
            r@ == self@,
    {
        Token(self.0.clone())
    }

    /// Whether two tokens carry the same symbol.
    pub fn same_as(&self, other: &Token) -> (r: bool)
        ensures
            r == (self@ == other@),
    {
        self.0 == other.0
    }
}

/// The abstract value of an [`Instrument`]: base symbol, quote symbol, kind.
pub struct InstrumentView {
    pub base: Seq<char>,
    pub quote: Seq<char>,
    pub kind: InstrumentKind,
}

/// A tradable instrument: base token, quote token and kind.
#[derive(Debug, PartialEq, Eq, Hash)]
pub struct Instrument {
    pub base: Token,
    pub quote: Token,
    pub kind: InstrumentKind,
}

impl View for Instrument {
    type V = InstrumentView;

    open spec fn view(&self) -> InstrumentView {
        InstrumentView { base: self.base@, quote: self.quote@, kind: self.kind }
    }
}

/// What std's `Debug` for `str` writes for a text: the text in double
/// quotes, with the characters that `char::escape_debug` escapes escaped.
pub uninterp spec fn debug_text(s: Seq<char>) -> Seq<char>;

/// Writes a text as std's `Debug` for `str` does (`format!("{:?}", s)`).
/// Stated: the result is named [`debug_text`]. Not stated: which characters
/// are escaped, and how.
#[verifier::external_body]
fn str_debug(s: &str) -> (r: String)
    ensures
        r@ == debug_text(s@),
{
    format!("{:?}", s)
}

/// The name of an instrument kind, as `Debug` writes it.
pub open spec fn kind_debug(kind: InstrumentKind) -> Seq<char> {
    match kind {
        InstrumentKind::Spot => "Spot"@,
        InstrumentKind::Perpetual => "Perpetual"@,
        InstrumentKind::Future => "Future"@,
        InstrumentKind::CryptoOption => "CryptoOption"@,
        InstrumentKind::CryptoLeveragedToken => "CryptoLeveragedToken"@,
        InstrumentKind::CommodityOption => "CommodityOption"@,
        InstrumentKind::CommodityFuture => "CommodityFuture"@,
    }
}

/// The `Debug` text of an instrument: its type name and its fields, the
/// tokens as tuple structs around their quoted symbols.
pub open spec fn instrument_debug(i: InstrumentView) -> Seq<char> {
    "Instrument { base: Token("@ + debug_text(i.base) + "), quote: Token("@ + debug_text(i.quote) + "), kind: "@
        + kind_debug(i.kind) + " }"@
}

fn kind_debug_str(kind: InstrumentKind) -> (r: &'static str)
    ensures
        r@ == kind_debug(kind),
{
    match kind {
        InstrumentKind::Spot => "Spot",
        InstrumentKind::Perpetual => "Perpetual",
        InstrumentKind::Future => "Future",
        InstrumentKind::CryptoOption => "CryptoOption",
        InstrumentKind::CryptoLeveragedToken => "CryptoLeveragedToken",
        InstrumentKind::CommodityOption => "CommodityOption",
        InstrumentKind::CommodityFuture => "CommodityFuture",
    }
}

impl Instrument {
    /// Builds an instrument from its base and quote symbols and its kind.
    pub fn new(base: &str, quote: &str, kind: InstrumentKind) -> (r: Instrument)
        ensures
            r.base@ == base@,
            r.quote@ == quote@,
            r.kind == kind,
    {
        Instrument {
            base: Token(base.to_string()),
            quote: Token(quote.to_string()),
            kind,
        }
    }

    /// A copy of the instrument.
    pub fn duplicate(&self) -> (r: Instrument)
        ensures
            r@ == self@,
    {
        Instrument { base: self.base.duplicate(), quote: self.quote.duplicate(), kind: self.kind }
    }

    /// The `Debug` text of the instrument (see [`instrument_debug`]).
    pub fn debug_string(&self) -> (r: String)
        ensures
            r@ == instrument_debug(self@),
    {
        let mut out = String::from_str("Instrument { base: Token(");
        let base = str_debug(self.base.0.as_str());
        out.append(base.as_str());
        out.append("), quote: Token(");
        let quote = str_debug(self.quote.0.as_str());
        out.append(quote.as_str());
        out.append("), kind: ");
        out.append(kind_debug_str(self.kind));
        out.append(" }");
        out
    }

    /// Whether two instruments have the same base, quote and kind.
    pub fn same_as(&self, other: &Instrument) -> (r: bool)
        ensures
            r == (self@ == other@),
    {
        self.kind == other.kind && self.base.same_as(&other.base) && self.quote.same_as(&other.quote)
    }
}

/// How an order is to be executed.
#[derive(Clone, Copy, Debug, PartialEq, Eq, Structural)]
pub enum OrderInstruction {
    Market,
    Limit,
    ImmediateOrCancel,
    FillOrKill,
    PostOnly,
    GoodTilCancelled,
    Cancel,
}

/// Whether an order adds liquidity (maker) or takes it (taker).
#[derive(Clone, Copy, Debug, PartialEq, Eq, Structural)]
pub enum OrderRole {
    Maker,
    Taker,
}

/// The client's own identifier for an order.
#[derive(Debug, PartialEq, Eq, Hash)]
pub struct ClientOrderId(pub String);

impl View for ClientOrderId {
    type V = Seq<char>;

    open spec fn view(&self) -> Seq<char> {
        self.0@
    }
}

/// The exchange's identifier for an order.
#[derive(Clone, Copy, Debug, PartialEq, Eq, Hash, Structural)]
pub struct OrderId(pub u64);

impl OrderId {
    /// The numeric value of the identifier.
    pub fn value(&self) -> (r: u64)
        ensures
            r == self.0,
    {
        self.0
    }
}

/// An order in some state: the fields every state shares and the
/// state-specific part.
#[derive(Debug, PartialEq)]
pub struct Order<State> {
    pub instruction: OrderInstruction,
    pub exchange: Exchange,
    pub instrument: Instrument,
    pub timestamp: i64,
    pub cid: Option<ClientOrderId>,
    pub side: Side,
    pub state: State,
}

/// The state of a request to cancel an order: the exchange identifier of the
/// order, when the client knows it.
#[derive(Clone, Copy, Debug, PartialEq, Eq, Structural)]
pub struct RequestCancel {
    pub id: Option<OrderId>,
}

/// Whether positions may be held in one direction only per instrument (net)
/// or long and short at once.
#[derive(Clone, Copy, Debug, PartialEq, Eq, Structural)]
pub enum PositionDirectionMode {
    Net,
    LongShort,
}

/// Whether a position's margin is shared across the account or isolated.
#[derive(Clone, Copy, Debug, PartialEq, Eq, Structural)]
pub enum PositionMarginMode {
    Cross,
    Isolated,
}

/// The venue an order or event belongs to.
#[derive(Clone, Copy, Debug, PartialEq, Eq, Structural)]
pub enum Exchange {
    SandBox,
    Simulated,
    Binance,
    Okex,
}

/// Errors that the exchange reports to its clients.
#[derive(Debug, PartialEq)]
pub enum ExchangeError {
    SandBox(String),
    Simulated(String),
    InvalidInstrument(String),
    InsufficientBalance(Token),
    NotImplemented(String),
    InvalidDirection,
    AttemptToRemoveNonExistingPosition,
    InvalidRequestOpen(String),
    InvalidRequestCancel(String),
    OrderNotFound(ClientOrderId),
    OrderAlreadyExists(Option<ClientOrderId>),
    RequestNotFound(u64),
    OrderRejected(String),
    UnsupportedOrderKind(OrderInstruction),
    InvalidLeverage(String),
    InvalidTradingPair(String),
    ConfigMissing,
    ConfigInheritanceNotAllowed,
    ConfigParseError(String),
    InternalError(String),
    InitiatorIncomplete(String),
}

} // verus!

verus! {

/// A market event: when the exchange stamped it, when it was received,
/// where it comes from, its instrument and its payload.
#[derive(Debug)]
pub struct MarketEvent<T> {
    pub exchange_time: i64,
    pub received_time: i64,
    pub exchange: Exchange,
    pub instrument: Instrument,
    pub kind: T,
}

/// A token together with its balance.
#[derive(Debug, PartialEq)]
pub struct TokenBalance<B> {
    pub token: Token,
    pub balance: B,
}

} // verus!
