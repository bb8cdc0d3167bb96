//! The orders of an account on the simulated exchange: the latencies its
//! requests are delayed by, the requests that wait out their latency, and
//! the book of open orders of each instrument it trades.
use vstd::prelude::*;
use vstd::string::*;
use rand::Rng;
use crate::common::{ClientOrderId, ExchangeError, Instrument, InstrumentView, Order, OrderId};
use crate::sandbox::account::account_latency::AccountLatency;
use crate::sandbox::instrument_orders::InstrumentOrders;

verus! {

/// The state of a request that waits out its latency: when it is predicted
/// to reach the exchange.
#[derive(Clone, Copy, Debug, PartialEq, Eq, Structural)]
pub struct Pending {
    pub predicted_ts: i64,
}

/// The instruments of a map of books, in map order.
pub open spec fn instruments_of<S>(m: Seq<(Instrument, InstrumentOrders<S>)>) -> Seq<InstrumentView> {
    m.map_values(|e: (Instrument, InstrumentOrders<S>)| e.0@)
}

/// Whether no instrument has two books.
pub open spec fn books_distinct<S>(m: Seq<(Instrument, InstrumentOrders<S>)>) -> bool {
    forall|i: int, j: int| 0 <= i < j < m.len() ==> #[trigger] m[i].0@ != #[trigger] m[j].0@
}

/// The instruments of `v`, each once, in the order of their first occurrence.
pub open spec fn distinct_instruments(v: Seq<InstrumentView>) -> Seq<InstrumentView>
    decreases v.len(),
{
    if v.len() == 0 {
        Seq::empty()
    } else {
        let rest = distinct_instruments(v.drop_last());
        if rest.contains(v.last()) {
            rest
        } else {
            rest.push(v.last())
        }
    }
}

/// The index of the book of `instrument` in a map of books, or -1.
pub open spec fn book_index<S>(m: Seq<(Instrument, InstrumentOrders<S>)>, instrument: InstrumentView) -> int
    decreases m.len(),
{
    if m.len() == 0 {
        -1
    } else if m.last().0@ == instrument {
        m.len() - 1
    } else {
        book_index(m.drop_last(), instrument)
    }
}

/// Whether two orders, in any states, agree in every field but the state:
/// instruction, exchange, instrument, timestamp, client id and side.
pub open spec fn same_request<A, B>(a: Order<A>, b: Order<B>) -> bool {
    &&& a.instruction == b.instruction
    &&& a.exchange == b.exchange
    &&& a.instrument@ == b.instrument@
    &&& a.timestamp == b.timestamp
    &&& a.cid is Some == b.cid is Some
    &&& (a.cid matches Some(c) ==> c@ == b.cid->0@)
    &&& a.side == b.side
}

/// The orders of an account on the simulated exchange.
pub struct AccountOrders<S> {
    pub latency_generator: AccountLatency,
    pub selectable_latencies: [i64; 20],
    pub request_counter: u64,
    pub pending_registry: Vec<Order<Pending>>,
    pub instrument_orders_map: Vec<(Instrument, InstrumentOrders<S>)>,
}

/// Draws an index uniformly from `[0, len)` (`rand::thread_rng().gen_range`).
/// Stated: the index is below `len`; which index comes is chance.
#[verifier::external_body]
fn random_index(len: usize) -> (r: usize)
    requires
        len > 0,
    ensures
        r < len,
{
    rand::thread_rng().gen_range(0..len)
}

proof fn lemma_book_index<S>(m: Seq<(Instrument, InstrumentOrders<S>)>, instrument: InstrumentView)
    ensures
        -1 <= book_index(m, instrument) < m.len(),
        book_index(m, instrument) >= 0 ==> m[book_index(m, instrument)].0@ == instrument,
        book_index(m, instrument) < 0 ==> forall|j: int| 0 <= j < m.len() ==> m[j].0@ != instrument,
    decreases m.len(),
{
    if m.len() > 0 && m.last().0@ != instrument {
        lemma_book_index(m.drop_last(), instrument);
        assert forall|j: int| 0 <= j < m.len() - 1 implies m[j] == m.drop_last()[j] by {}
    }
}

proof fn lemma_book_index_of_last_match<S>(m: Seq<(Instrument, InstrumentOrders<S>)>, instrument: InstrumentView, i: int)
    requires
        0 <= i < m.len(),
        m[i].0@ == instrument,
        forall|j: int| i < j < m.len() ==> m[j].0@ != instrument,
    ensures
        book_index(m, instrument) == i,
    decreases m.len(),
{
    if i < m.len() - 1 {
        lemma_book_index_of_last_match(m.drop_last(), instrument, i);
    }
}

fn copy_cid(cid: &Option<ClientOrderId>) -> (r: Option<ClientOrderId>)
    ensures
        r is Some == cid is Some,
        r matches Some(c) ==> c@ == cid->0@,
{
    match cid {
        Some(c) => Some(ClientOrderId(c.0.clone())),
        None => None,
    }
}

impl<S> AccountOrders<S> {
    /// Whether no instrument has two books and every book is in rank order.
    pub open spec fn wf(&self) -> bool {
        &&& books_distinct(self.instrument_orders_map@)
        &&& forall|i: int| 0 <= i < self.instrument_orders_map@.len() ==> (#[trigger] self.instrument_orders_map@[i]).1.wf()
    }

    fn locate(&self, instrument: &Instrument) -> (r: Option<usize>)
        ensures
            match r {
                Some(i) => i as int == book_index(self.instrument_orders_map@, instrument@)
                    && i < self.instrument_orders_map@.len(),
                None => book_index(self.instrument_orders_map@, instrument@) == -1,
            },
    {
        proof {
            lemma_book_index(self.instrument_orders_map@, instrument@);
        }
        let mut i = self.instrument_orders_map.len();
        while i > 0
            invariant
                i <= self.instrument_orders_map@.len(),
                forall|j: int| i <= j < self.instrument_orders_map@.len() ==> self.instrument_orders_map@[j].0@ != instrument@,
                -1 <= book_index(self.instrument_orders_map@, instrument@) < self.instrument_orders_map@.len(),
                book_index(self.instrument_orders_map@, instrument@) >= 0 ==> self.instrument_orders_map@[book_index(
                    self.instrument_orders_map@,
                    instrument@,
                )].0@ == instrument@,
                book_index(self.instrument_orders_map@, instrument@) < 0 ==> forall|j: int|
                    0 <= j < self.instrument_orders_map@.len() ==> self.instrument_orders_map@[j].0@ != instrument@,
            decreases i,
        {
            i = i - 1;
            if self.instrument_orders_map[i].0.same_as(instrument) {
                proof {
                    lemma_book_index_of_last_match(self.instrument_orders_map@, instrument@, i as int);
                }
                return Some(i);
            }
        }
        None
    }

    /// The orders of an account trading `instruments`: one empty book for
    /// each instrument (repeated instruments share one), in the order of
    /// their first occurrence; no waiting request; the request counter at
    /// zero; `selectable_latencies` are the latencies requests are delayed by.
    pub fn new(instruments: Vec<Instrument>, account_latency: AccountLatency, selectable_latencies: [i64; 20]) -> (r: Self)
        ensures
            r.wf(),
            instruments_of(r.instrument_orders_map@) == distinct_instruments(instruments@.map_values(|i: Instrument| i@)),
            forall|i: int| 0 <= i < r.instrument_orders_map@.len() ==> {
                let book = (#[trigger] r.instrument_orders_map@[i]).1;
                book.bids@.len() == 0 && book.asks@.len() == 0 && book.batch_id == 0
            },
            r.pending_registry@.len() == 0,
            r.request_counter == 0,
            r.latency_generator == account_latency,
            r.selectable_latencies@ == selectable_latencies@,
    {
        let ghost views = instruments@.map_values(|i: Instrument| i@);
        let mut orders = AccountOrders {
            latency_generator: account_latency,
            selectable_latencies,
            request_counter: 0,
            pending_registry: Vec::new(),
            instrument_orders_map: Vec::new(),
        };
        let mut k: usize = 0;
        assert(views.take(0) =~= Seq::<InstrumentView>::empty());
        while k < instruments.len()
            invariant
                k <= instruments@.len(),
                views == instruments@.map_values(|i: Instrument| i@),
                orders.wf(),
                instruments_of(orders.instrument_orders_map@) == distinct_instruments(views.take(k as int)),
                forall|i: int| 0 <= i < orders.instrument_orders_map@.len() ==> {
                    let book = (#[trigger] orders.instrument_orders_map@[i]).1;
                    book.bids@.len() == 0 && book.asks@.len() == 0 && book.batch_id == 0
                },
                orders.pending_registry@.len() == 0,
                orders.request_counter == 0,
                orders.latency_generator == account_latency,
                orders.selectable_latencies@ == selectable_latencies@,
            decreases instruments@.len() - k,
        {
            let ghost before = orders.instrument_orders_map@;
            let ghost prefix = views.take(k as int);
            proof {
                assert(views.take(k + 1).drop_last() =~= prefix);
                assert(views.take(k + 1).last() == instruments@[k as int]@);
                lemma_book_index(before, instruments@[k as int]@);
            }
            match orders.locate(&instruments[k]) {
                Some(_) => {
                    proof {
                        let at = book_index(before, instruments@[k as int]@);
                        assert(instruments_of(before)[at] == instruments@[k as int]@);
                        assert(distinct_instruments(prefix).contains(instruments@[k as int]@));
                    }
                },
                None => {
                    let instrument = instruments[k].duplicate();
                    orders.instrument_orders_map.push((instrument, InstrumentOrders::new()));
                    proof {
                        let key = instruments@[k as int]@;
                        assert(!instruments_of(before).contains(key)) by {
                            if instruments_of(before).contains(key) {
                                let j = choose|j: int| 0 <= j < instruments_of(before).len() && instruments_of(before)[j] == key;
                                assert(before[j].0@ == key);
                            }
                        }
                        assert(instruments_of(orders.instrument_orders_map@) =~= instruments_of(before).push(key));
                        assert forall|a: int, b: int| 0 <= a < b < orders.instrument_orders_map@.len() implies
                            #[trigger] orders.instrument_orders_map@[a].0@ != #[trigger] orders.instrument_orders_map@[b].0@ by {
                            assert(orders.instrument_orders_map@[a] == before[a]);
                            if b < before.len() {
                                assert(orders.instrument_orders_map@[b] == before[b]);
                            }
                        }
                        assert forall|i: int| 0 <= i < orders.instrument_orders_map@.len() implies
                            (#[trigger] orders.instrument_orders_map@[i]).1.wf() by {
                            if i < before.len() {
                                assert(orders.instrument_orders_map@[i] == before[i]);
                            }
                        }
                        assert forall|i: int| 0 <= i < orders.instrument_orders_map@.len() implies {
                            let book = (#[trigger] orders.instrument_orders_map@[i]).1;
                            book.bids@.len() == 0 && book.asks@.len() == 0 && book.batch_id == 0
                        } by {
                            if i < before.len() {
                                assert(orders.instrument_orders_map@[i] == before[i]);
                            }
                        }
                    }
                },
            }
            k = k + 1;
        }
        assert(views.take(k as int) =~= views);
        orders
    }

    /// One of the selectable latencies, picked at random.
    pub fn get_random_latency(&self) -> (r: i64)
        ensures
            exists|i: int| 0 <= i < 20 && r == self.selectable_latencies@[i],
    {
        let idx = random_index(20);
        self.selectable_latencies[idx]
    }

    /// The book of `instrument`, to be changed in place; an instrument
    /// without a book is refused with `Simulated("SimulatedExchange 没有为
    /// Instrument: BASE_QUOTE 配置")`, the instrument written as its base and
    /// quote joined by `_`, and nothing changes.
    pub fn orders_mut(&mut self, instrument: &Instrument) -> (r: Result<&mut InstrumentOrders<S>, ExchangeError>)
        ensures
            match r {
                Ok(book) => {
                    let i = book_index(old(self).instrument_orders_map@, instrument@);
                    &&& i >= 0
                    &&& *book == old(self).instrument_orders_map@[i].1
                    &&& final(self).instrument_orders_map@ == old(self).instrument_orders_map@.update(
                        i,
                        (old(self).instrument_orders_map@[i].0, *final(book)),
                    )
                    &&& final(self).pending_registry@ == old(self).pending_registry@
                    &&& final(self).request_counter == old(self).request_counter
                },
                Err(e) => {
                    &&& book_index(old(self).instrument_orders_map@, instrument@) == -1
                    &&& *final(self) == *old(self)
                    &&& e matches ExchangeError::Simulated(m)
                    &&& m@ == "SimulatedExchange 没有为 Instrument: "@ + instrument.base@ + "_"@ + instrument.quote@
                        + " 配置"@
                },
            },
    {
        match self.locate(instrument) {
            Some(i) => {
                let entry = &mut self.instrument_orders_map[i];
                Ok(&mut entry.1)
            },
            None => {
                let mut m = String::from_str("SimulatedExchange 没有为 Instrument: ");
                m.append(instrument.base.0.as_str());
                m.append("_");
                m.append(instrument.quote.0.as_str());
                m.append(" 配置");
                Err(ExchangeError::Simulated(m))
            },
        }
    }

    /// Keeps a request waiting for a latency picked from the selectable
    /// ones: the waiting order is the request with the state `Pending`,
    /// predicted at the request's timestamp plus that latency; it is added
    /// to the registry of waiting requests and returned.
    pub fn keep_request_as_pending<R>(&mut self, request: Order<R>) -> (r: Order<Pending>)
        requires
            forall|i: int| 0 <= i < 20 ==> i64::MIN <= request.timestamp + #[trigger] old(self).selectable_latencies@[i] <= i64::MAX,
        ensures
            exists|i: int| 0 <= i < 20 && r.state.predicted_ts == request.timestamp + old(self).selectable_latencies@[i],
            same_request(r, request),
            final(self).pending_registry@.len() == old(self).pending_registry@.len() + 1,
            final(self).pending_registry@.drop_last() == old(self).pending_registry@,
            same_request(final(self).pending_registry@.last(), r),
            final(self).pending_registry@.last().state == r.state,
            final(self).instrument_orders_map@ == old(self).instrument_orders_map@,
            final(self).request_counter == old(self).request_counter,
            final(self).selectable_latencies@ == old(self).selectable_latencies@,
    {
        let latency = self.get_random_latency();
        let predicted_ts = request.timestamp + latency;
        let kept = Order {
            instruction: request.instruction,
            exchange: request.exchange,
            instrument: request.instrument.duplicate(),
            timestamp: request.timestamp,
            cid: copy_cid(&request.cid),
            side: request.side,
            state: Pending { predicted_ts },
        };
        self.pending_registry.push(kept);
        Order {
            instruction: request.instruction,
            exchange: request.exchange,
            instrument: request.instrument,
            timestamp: request.timestamp,
            cid: request.cid,
            side: request.side,
            state: Pending { predicted_ts },
        }
    }

    /// Moves the request counter on by one; it wraps around after
    /// `u64::MAX`, as an atomic add does.
    pub fn increment_request_counter(&mut self)
        ensures
            final(self).request_counter == (if old(self).request_counter == u64::MAX { 0 } else { old(self).request_counter + 1 }),
            final(self).pending_registry@ == old(self).pending_registry@,
            final(self).instrument_orders_map@ == old(self).instrument_orders_map@,
    {
        self.request_counter = if self.request_counter == u64::MAX { 0 } else { self.request_counter + 1 };
    }

    /// The identifier of the next open order: the request counter.
    pub fn order_id(&self) -> (r: OrderId)
        ensures
            r.0 == self.request_counter,
    {
        OrderId(self.request_counter)
    }
}

} // verus!
