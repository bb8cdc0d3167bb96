//! The open orders of one instrument: bids and asks, each side kept in
//! ascending order of the rank the caller gives each order (its price
//! order), with the counter that numbers the instrument's trades. Each
//! resting order is kept with its rank and its exchange identifier.
use vstd::prelude::*;
use vstd::string::*;
use vstd::multiset::Multiset;
use rayon::iter::{IndexedParallelIterator, IntoParallelRefIterator};
use crate::common::{ClientOrderId, ExchangeError, Order, OrderId, RequestCancel, Side};
use crate::text::text_eq;

verus! {

broadcast use vstd::seq_lib::group_to_multiset_ensures;

/// Whether a side of the book is in ascending order of rank.
pub open spec fn ascending<S>(side: Seq<(u64, OrderId, Order<S>)>) -> bool {
    forall|i: int, j: int| 0 <= i <= j < side.len() ==> #[trigger] side[i].0 <= #[trigger] side[j].0
}

/// Whether `after` is `before` with `entry` put in after every entry ranked
/// at or below it and before every entry ranked above it.
pub open spec fn placed<S>(
    before: Seq<(u64, OrderId, Order<S>)>,
    entry: (u64, OrderId, Order<S>),
    after: Seq<(u64, OrderId, Order<S>)>,
) -> bool {
    exists|i: int|
        0 <= i <= before.len() && after == before.insert(i, entry) && (forall|k: int|
            0 <= k < i ==> #[trigger] before[k].0 <= entry.0) && (forall|k: int|
            i <= k < before.len() ==> #[trigger] before[k].0 > entry.0)
}

/// Whether the resting order `e` is the one a cancel request names: its
/// exchange identifier is the one requested, or both carry a client
/// identifier and the two are the same text.
pub open spec fn cancel_matches<S>(e: (u64, OrderId, Order<S>), req: Order<RequestCancel>) -> bool {
    ||| (req.state.id matches Some(x) && e.1 == x)
    ||| (req.cid matches Some(c) && e.2.cid matches Some(d) && d@ == c@)
}

/// The error of a cancel request that names no resting order: its client
/// identifier, or `Unknown` when it has none.
pub open spec fn not_found_error(req: Order<RequestCancel>, e: ExchangeError) -> bool {
    e matches ExchangeError::OrderNotFound(c) && c@ == match req.cid {
        Some(rc) => rc@,
        None => "Unknown"@,
    }
}

/// The open bids and asks of one instrument and the number of its latest
/// trade.
pub struct InstrumentOrders<S> {
    pub batch_id: i64,
    pub bids: Vec<(u64, OrderId, Order<S>)>,
    pub asks: Vec<(u64, OrderId, Order<S>)>,
}

fn insert_ranked<S>(side: &mut Vec<(u64, OrderId, Order<S>)>, entry: (u64, OrderId, Order<S>))
    requires
        ascending(old(side)@),
    ensures
        ascending(final(side)@),
        placed(old(side)@, entry, final(side)@),
{
    let rank = entry.0;
    let mut i: usize = 0;
    while i < side.len() && side[i].0 <= rank
        invariant
            i <= side@.len(),
            side@ == old(side)@,
            forall|k: int| 0 <= k < i ==> #[trigger] side@[k].0 <= rank,
        decreases side@.len() - i,
    {
        i = i + 1;
    }
    let ghost before = side@;
    side.insert(i, entry);
    proof {
        assert forall|k: int| i <= k < before.len() implies #[trigger] before[k].0 > rank by {
            assert(before[i as int].0 > rank);
            assert(before[i as int].0 <= before[k].0);
        }
        assert forall|a: int, b: int| 0 <= a <= b < side@.len() implies #[trigger] side@[a].0 <= #[trigger] side@[b].0 by {
            let a0 = if a < i { a } else { a - 1 };
            let b0 = if b <= i { b } else { b - 1 };
            if a < i && b < i {
                assert(side@[a] == before[a0] && side@[b] == before[b0]);
            } else if a < i && b == i {
                assert(side@[a] == before[a0]);
            } else if a < i {
                assert(side@[a] == before[a0] && side@[b] == before[b - 1]);
            } else if a == i && b > i {
                assert(side@[b] == before[b - 1]);
            } else if a > i {
                assert(side@[a] == before[a - 1] && side@[b] == before[b - 1]);
            }
        }
        assert(placed(before, entry, side@));
    }
}

proof fn lemma_placed_multiset<S>(
    before: Seq<(u64, OrderId, Order<S>)>,
    entry: (u64, OrderId, Order<S>),
    after: Seq<(u64, OrderId, Order<S>)>,
)
    requires
        placed(before, entry, after),
    ensures
        after.to_multiset() == before.to_multiset().insert(entry),
        after.len() == before.len() + 1,
{
    let i = choose|i: int|
        0 <= i <= before.len() && after == before.insert(i, entry) && (forall|k: int|
            0 <= k < i ==> #[trigger] before[k].0 <= entry.0) && (forall|k: int|
            i <= k < before.len() ==> #[trigger] before[k].0 > entry.0);
    vstd::seq_lib::to_multiset_insert(before, i, entry);
}

/// Whether a side of the book is in ascending order of rank.
fn is_ascending<S>(side: &Vec<(u64, OrderId, Order<S>)>) -> (r: bool)
    ensures
        r == ascending(side@),
{
    let mut i: usize = 1;
    if side.len() == 0 {
        return true;
    }
    while i < side.len()
        invariant
            1 <= i <= side@.len(),
            forall|a: int, b: int| 0 <= a <= b < i ==> #[trigger] side@[a].0 <= #[trigger] side@[b].0,
        decreases side@.len() - i,
    {
        if side[i - 1].0 > side[i].0 {
            assert(!(side@[i - 1].0 <= side@[i as int].0));
            return false;
        }
        proof {
            assert forall|a: int, b: int| 0 <= a <= b < i + 1 implies #[trigger] side@[a].0 <= #[trigger] side@[b].0 by {
                if b == i && a < i {
                    assert(side@[a].0 <= side@[i - 1].0);
                }
            }
        }
        i = i + 1;
    }
    true
}

/// The entries of `side` in ascending order of rank, entries of equal rank
/// in the order they had.
fn sort_by_rank<S>(side: Vec<(u64, OrderId, Order<S>)>) -> (r: Vec<(u64, OrderId, Order<S>)>)
    ensures
        ascending(r@),
        r@.to_multiset() == side@.to_multiset(),
{
    let ghost whole = side@;
    let mut rest = side;
    let mut out: Vec<(u64, OrderId, Order<S>)> = Vec::new();
    assert(rest@ == whole);
    while rest.len() > 0
        invariant
            ascending(out@),
            out@.to_multiset().add(rest@.to_multiset()) == whole.to_multiset(),
        decreases rest@.len(),
    {
        let ghost before_rest = rest@;
        let ghost before_out = out@;
        let e = rest.remove(0);
        insert_ranked(&mut out, e);
        proof {
            lemma_placed_multiset(before_out, e, out@);
            assert(before_rest.remove(0) == rest@);
            assert(before_rest[0] == e);
            assert(rest@.to_multiset() == before_rest.to_multiset().remove(e));
            assert(before_rest.to_multiset().contains(e));
            assert(out@.to_multiset().add(rest@.to_multiset()) =~= before_out.to_multiset().add(before_rest.to_multiset()));
        }
    }
    assert(rest@.to_multiset() =~= Multiset::empty());
    assert(out@.to_multiset().add(rest@.to_multiset()) =~= out@.to_multiset());
    out
}

/// Whether `e` is the resting order that `request` names (see
/// [`cancel_matches`]).
fn entry_matches<S>(e: &(u64, OrderId, Order<S>), request: &Order<RequestCancel>) -> (r: bool)
    ensures
        r == cancel_matches(*e, *request),
{
    let by_id = match request.state.id {
        Some(x) => e.1 == x,
        None => false,
    };
    if by_id {
        return true;
    }
    match (&request.cid, &e.2.cid) {
        (Some(c), Some(d)) => text_eq(d.0.as_str(), c.0.as_str()),
        _ => false,
    }
}

/// Searches `side` in parallel for an entry that `request` names
/// (rayon's `IndexedParallelIterator::position_any` over `par_iter`).
/// Stated: a returned index is below the length and names a matching
/// entry; `None` only when no entry matches. Which of several matching
/// entries is found is left open, as rayon leaves it.
#[verifier::external_body]
fn find_any_match<S: Sync>(side: &Vec<(u64, OrderId, Order<S>)>, request: &Order<RequestCancel>) -> (r: Option<usize>)
    ensures
        match r {
            Some(k) => k < side@.len() && cancel_matches(side@[k as int], *request),
            None => forall|k: int| 0 <= k < side@.len() ==> !cancel_matches(#[trigger] side@[k], *request),
        },
{
    side.par_iter().position_any(|e| entry_matches(e, request))
}

fn copy_client_id(cid: &Option<ClientOrderId>) -> (r: ClientOrderId)
    ensures
        r@ == match *cid {
            Some(c) => c@,
            None => "Unknown"@,
        },
{
    match cid {
        Some(c) => ClientOrderId(c.0.clone()),
        None => ClientOrderId(String::from_str("Unknown")),
    }
}

impl<S> Default for InstrumentOrders<S> {
    /// The empty book of [`InstrumentOrders::new`].
    fn default() -> (r: Self)
        ensures
            r.wf(),
            r.batch_id == 0,
            r.bids@.len() == 0,
            r.asks@.len() == 0,
    {
        Self::new()
    }
}

impl<S> InstrumentOrders<S> {
    /// Whether both sides of the book are in ascending order of rank.
    pub open spec fn wf(&self) -> bool {
        ascending(self.bids@) && ascending(self.asks@)
    }

    /// The side of the book that orders of `side` rest on: bids for a buy,
    /// asks for a sell.
    pub open spec fn side_entries(&self, side: Side) -> Seq<(u64, OrderId, Order<S>)> {
        match side {
            Side::Buy => self.bids@,
            Side::Sell => self.asks@,
        }
    }

    /// The number of resting orders.
    pub open spec fn count(&self) -> nat {
        self.bids@.len() + self.asks@.len()
    }

    /// An empty book whose trade counter is zero.
    pub fn new() -> (r: Self)
        ensures
            r.wf(),
            r.batch_id == 0,
            r.bids@.len() == 0,
            r.asks@.len() == 0,
    {
        InstrumentOrders { batch_id: 0, bids: Vec::new(), asks: Vec::new() }
    }

    /// Adds the open order `new_open_order`, with exchange identifier `id`
    /// and rank `rank`, to its side of the book (bids for a buy, asks for a
    /// sell), which is left in ascending order of rank and holds the old
    /// entries and the new one. On a side that was in order already the new
    /// entry goes after the entries ranked at or below it and before those
    /// ranked above it, as appending it and sorting the side stably would.
    /// The other side and the trade counter are unchanged.
    pub fn add_order_open(&mut self, rank: u64, id: OrderId, new_open_order: Order<S>)
        ensures
            final(self).batch_id == old(self).batch_id,
            final(self).count() == old(self).count() + 1,
            ({
                let entry = (rank, id, new_open_order);
                let side = new_open_order.side;
                let other = other_side(side);
                &&& ascending(final(self).side_entries(side))
                &&& final(self).side_entries(side).to_multiset() == old(self).side_entries(side).to_multiset().insert(entry)
                &&& ascending(old(self).side_entries(side)) ==> placed(old(self).side_entries(side), entry, final(self).side_entries(side))
                &&& final(self).side_entries(other) == old(self).side_entries(other)
            }),
            old(self).wf() ==> final(self).wf(),
    {
        let side = new_open_order.side;
        let entry = (rank, id, new_open_order);
        match side {
            Side::Buy => Self::add_to_side(&mut self.bids, entry),
            Side::Sell => Self::add_to_side(&mut self.asks, entry),
        }
    }

    fn add_to_side(side: &mut Vec<(u64, OrderId, Order<S>)>, entry: (u64, OrderId, Order<S>))
        ensures
            ascending(final(side)@),
            final(side)@.to_multiset() == old(side)@.to_multiset().insert(entry),
            final(side)@.len() == old(side)@.len() + 1,
            ascending(old(side)@) ==> placed(old(side)@, entry, final(side)@),
    {
        if is_ascending(side) {
            insert_ranked(side, entry);
            proof {
                lemma_placed_multiset(old(side)@, entry, side@);
            }
        } else {
            let ghost before = side@;
            side.push(entry);
            let mut all: Vec<(u64, OrderId, Order<S>)> = Vec::new();
            std::mem::swap(side, &mut all);
            let sorted = sort_by_rank(all);
            *side = sorted;
            proof {
                assert(before.push(entry).to_multiset() == before.to_multiset().insert(entry));
                vstd::seq_lib::to_multiset_len(side@);
                vstd::seq_lib::to_multiset_len(before.push(entry));
            }
        }
    }

    /// The side of the book that a market trade reaches, the trade's price
    /// given by its rank `market_rank` on the scale of the book's ranks: a
    /// market buy (`market_side` is `buy`) ranked at or above the best ask,
    /// the last one, meets the asks (`Sell`); a market sell (`sell`) ranked at
    /// or below the best bid, the last one, meets the bids (`Buy`). Any other
    /// side text, or an empty side of the book, meets nothing.
    pub fn determine_matching_side(&self, market_side: &str, market_rank: u64) -> (r: Option<Side>)
        ensures
            r == (if market_side@ == "buy"@ {
                if self.asks@.len() > 0 && self.asks@.last().0 <= market_rank { Some(Side::Sell) } else { None }
            } else if market_side@ == "sell"@ {
                if self.bids@.len() > 0 && market_rank <= self.bids@.last().0 { Some(Side::Buy) } else { None }
            } else {
                None
            }),
    {
        if text_eq(market_side, "buy") {
            let n = self.asks.len();
            if n > 0 && self.asks[n - 1].0 <= market_rank {
                return Some(Side::Sell);
            }
        } else if text_eq(market_side, "sell") {
            let n = self.bids.len();
            if n > 0 && market_rank <= self.bids[n - 1].0 {
                return Some(Side::Buy);
            }
        }
        None
    }

    /// The number of the latest trade: the trade counter.
    pub fn trade_id(&self) -> (r: i64)
        ensures
            r == self.batch_id,
    {
        self.batch_id
    }

    /// How many orders rest on the book.
    pub fn num_orders(&self) -> (r: usize)
        requires
            self.count() <= usize::MAX,
        ensures
            r == self.count(),
    {
        self.bids.len() + self.asks.len()
    }
}

impl<S: Sync> InstrumentOrders<S> {
    /// Takes off the book the resting order that a cancel request names,
    /// searching the side of the request: an entry whose exchange
    /// identifier is the requested one, or whose client identifier is the
    /// requested one (see [`cancel_matches`]). Where several match, which
    /// one leaves is not fixed. The removed entry is returned and the rest
    /// of that side keeps its order; the other side and the trade counter
    /// are unchanged. Where none matches, the book is unchanged and the
    /// answer is `OrderNotFound` with the request's client identifier, or
    /// `Unknown` when it has none. A request without an exchange
    /// identifier is served by its client identifier alone.
    pub fn remove_for_cancel(&mut self, request: &Order<RequestCancel>) -> (r: Result<
        (u64, OrderId, Order<S>),
        ExchangeError,
    >)
        ensures
            match r {
                Ok(e) => {
                    let before = old(self).side_entries(request.side);
                    exists|k: int|
                        0 <= k < before.len() && cancel_matches(#[trigger] before[k], *request) && e == before[k]
                            && final(self).side_entries(request.side) == before.remove(k)
                },
                Err(e) => {
                    &&& forall|k: int|
                        0 <= k < old(self).side_entries(request.side).len() ==> !cancel_matches(
                            #[trigger] old(self).side_entries(request.side)[k],
                            *request,
                        )
                    &&& not_found_error(*request, e)
                    &&& final(self).side_entries(request.side) == old(self).side_entries(request.side)
                },
            },
            final(self).side_entries(other_side(request.side)) == old(self).side_entries(other_side(request.side)),
            final(self).batch_id == old(self).batch_id,
    {
        let ghost before = old(self).side_entries(request.side);
        let r = match request.side {
            Side::Buy => remove_match(&mut self.bids, request),
            Side::Sell => remove_match(&mut self.asks, request),
        };
        proof {
            if r is Ok {
                let e = r->Ok_0;
                let k = choose|k: int|
                    0 <= k < before.len() && cancel_matches(#[trigger] before[k], *request) && e == before[k]
                        && self.side_entries(request.side) == before.remove(k);
                assert(cancel_matches(before[k], *request));
            }
        }
        r
    }
}

fn remove_match<S: Sync>(side: &mut Vec<(u64, OrderId, Order<S>)>, request: &Order<RequestCancel>) -> (r: Result<
    (u64, OrderId, Order<S>),
    ExchangeError,
>)
    ensures
        match r {
            Ok(e) => exists|k: int|
                0 <= k < old(side)@.len() && cancel_matches(#[trigger] old(side)@[k], *request) && e == old(side)@[k]
                    && final(side)@ == old(side)@.remove(k),
            Err(e) => {
                &&& forall|k: int| 0 <= k < old(side)@.len() ==> !cancel_matches(#[trigger] old(side)@[k], *request)
                &&& not_found_error(*request, e)
                &&& final(side)@ == old(side)@
            },
        },
{
    match find_any_match(side, request) {
        Some(k) => {
            let ghost before = side@;
            let e = side.remove(k);
            assert(cancel_matches(before[k as int], *request) && e == before[k as int] && side@ == before.remove(k as int));
            Ok(e)
        },
        None => Err(ExchangeError::OrderNotFound(copy_client_id(&request.cid))),
    }
}

/// The other side of the book.
pub open spec fn other_side(side: Side) -> Side {
    match side {
        Side::Buy => Side::Sell,
        Side::Sell => Side::Buy,
    }
}

} // verus!
