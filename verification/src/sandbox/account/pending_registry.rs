//! The requests of a sandbox account that wait out their latency, each
//! under its request id, and the maker/taker decision that may refuse one.
use vstd::prelude::*;
use vstd::string::*;
use crate::common::{ClientOrderId, ExchangeError, Order, OrderInstruction, OrderRole, Side};
use crate::sandbox::account::{determine_order_role, order_role_of};

verus! {

/// Whether some entry of a registry is under `request_id`.
pub open spec fn holds_request<P>(entries: Seq<(u64, Order<P>)>, request_id: u64) -> bool {
    exists|i: int| 0 <= i < entries.len() && #[trigger] entries[i].0 == request_id
}

/// Whether two optional client identifiers are equal: both absent, or both
/// present with the same text.
pub open spec fn same_client_id(a: Option<ClientOrderId>, b: Option<ClientOrderId>) -> bool {
    match (a, b) {
        (None, None) => true,
        (Some(x), Some(y)) => x@ == y@,
        _ => false,
    }
}

/// Whether some entry of a registry carries the client identifier `cid`.
pub open spec fn holds_client_id<P>(entries: Seq<(u64, Order<P>)>, cid: Option<ClientOrderId>) -> bool {
    exists|i: int| 0 <= i < entries.len() && same_client_id(#[trigger] entries[i].1.cid, cid)
}

/// The requests that wait out their latency, by request id.
pub struct PendingOrderRegistry<P> {
    pub entries: Vec<(u64, Order<P>)>,
}

fn same_client_id_exec(a: &Option<ClientOrderId>, b: &Option<ClientOrderId>) -> (r: bool)
    ensures
        r == same_client_id(*a, *b),
{
    match (a, b) {
        (None, None) => true,
        (Some(x), Some(y)) => x.0 == y.0,
        _ => false,
    }
}

fn copy_client_id(cid: &Option<ClientOrderId>) -> (r: Option<ClientOrderId>)
    ensures
        same_client_id(r, *cid),
{
    match cid {
        Some(c) => Some(ClientOrderId(c.0.clone())),
        None => None,
    }
}

impl<P> PendingOrderRegistry<P> {
    /// Whether no request id has two entries.
    pub open spec fn wf(&self) -> bool {
        forall|i: int, j: int|
            0 <= i < j < self.entries@.len() ==> #[trigger] self.entries@[i].0 != #[trigger] self.entries@[j].0
    }

    /// A registry without requests.
    pub fn new() -> (r: Self)
        ensures
            r.wf(),
            r.entries@.len() == 0,
    {
        PendingOrderRegistry { entries: Vec::new() }
    }

    fn find(&self, request_id: u64) -> (r: Option<usize>)
        ensures
            match r {
                Some(i) => i < self.entries@.len() && self.entries@[i as int].0 == request_id,
                None => !holds_request(self.entries@, request_id),
            },
    {
        let mut i: usize = 0;
        while i < self.entries.len()
            invariant
                i <= self.entries@.len(),
                forall|j: int| 0 <= j < i ==> self.entries@[j].0 != request_id,
            decreases self.entries@.len() - i,
        {
            if self.entries[i].0 == request_id {
                return Some(i);
            }
            i = i + 1;
        }
        None
    }

    /// Takes the request `request_id` out of the registry; a request that
    /// is not there is `RequestNotFound` and nothing changes.
    pub fn remove_order_from_pending_registry(&mut self, request_id: u64) -> (r: Result<(), ExchangeError>)
        ensures
            r is Ok <==> holds_request(old(self).entries@, request_id),
            r is Ok ==> exists|k: int|
                0 <= k < old(self).entries@.len() && #[trigger] old(self).entries@[k].0 == request_id
                    && final(self).entries@ == old(self).entries@.remove(k),
            r is Err ==> r == Err::<(), ExchangeError>(ExchangeError::RequestNotFound(request_id))
                && final(self).entries@ == old(self).entries@,
            old(self).wf() ==> final(self).wf() && !holds_request(final(self).entries@, request_id),
    {
        match self.find(request_id) {
            Some(i) => {
                let ghost before = self.entries@;
                let _removed = self.entries.remove(i);
                proof {
                    assert(before[i as int].0 == request_id && self.entries@ == before.remove(i as int));
                    if old(self).wf() {
                        assert forall|a: int, b: int| 0 <= a < b < self.entries@.len() implies
                            #[trigger] self.entries@[a].0 != #[trigger] self.entries@[b].0 by {
                            let a0 = if a < i { a } else { a + 1 };
                            let b0 = if b < i { b } else { b + 1 };
                            assert(self.entries@[a] == before[a0]);
                            assert(self.entries@[b] == before[b0]);
                        }
                        if holds_request(self.entries@, request_id) {
                            let k = choose|k: int| 0 <= k < self.entries@.len() && #[trigger] self.entries@[k].0 == request_id;
                            let k0 = if k < i { k } else { k + 1 };
                            assert(self.entries@[k] == before[k0]);
                        }
                    }
                }
                Ok(())
            },
            None => Err(ExchangeError::RequestNotFound(request_id)),
        }
    }

    /// Registers a request that waits out its latency under `request_id`.
    /// A request whose client identifier some waiting request already
    /// carries (two absent identifiers count as the same) is refused with
    /// `OrderAlreadyExists` and nothing changes; otherwise the request
    /// replaces the one under the same request id, or is added at the end.
    pub fn register_pending_order(&mut self, request_id: u64, pending: Order<P>) -> (r: Result<(), ExchangeError>)
        ensures
            r is Err <==> holds_client_id(old(self).entries@, pending.cid),
            r matches Err(e) ==> (e matches ExchangeError::OrderAlreadyExists(c) && same_client_id(c, pending.cid))
                && final(self).entries@ == old(self).entries@,
            r is Ok ==> (if holds_request(old(self).entries@, request_id) {
                exists|k: int|
                    0 <= k < old(self).entries@.len() && #[trigger] old(self).entries@[k].0 == request_id
                        && final(self).entries@ == old(self).entries@.update(k, (request_id, pending))
            } else {
                final(self).entries@ == old(self).entries@.push((request_id, pending))
            }),
            old(self).wf() ==> final(self).wf(),
    {
        let mut i: usize = 0;
        while i < self.entries.len()
            invariant
                i <= self.entries@.len(),
                self.entries@ == old(self).entries@,
                forall|j: int| 0 <= j < i ==> !same_client_id(#[trigger] self.entries@[j].1.cid, pending.cid),
            decreases self.entries@.len() - i,
        {
            if same_client_id_exec(&self.entries[i].1.cid, &pending.cid) {
                let cid = copy_client_id(&pending.cid);
                return Err(ExchangeError::OrderAlreadyExists(cid));
            }
            i = i + 1;
        }
        let ghost before = self.entries@;
        match self.find(request_id) {
            Some(k) => {
                self.entries.set(k, (request_id, pending));
                proof {
                    assert(before[k as int].0 == request_id);
                    if old(self).wf() {
                        assert forall|a: int, b: int| 0 <= a < b < self.entries@.len() implies
                            #[trigger] self.entries@[a].0 != #[trigger] self.entries@[b].0 by {
                            if a != k {
                                assert(self.entries@[a] == before[a]);
                            }
                            if b != k {
                                assert(self.entries@[b] == before[b]);
                            }
                        }
                    }
                }
            },
            None => {
                self.entries.push((request_id, pending));
                proof {
                    if old(self).wf() {
                        assert forall|a: int, b: int| 0 <= a < b < self.entries@.len() implies
                            #[trigger] self.entries@[a].0 != #[trigger] self.entries@[b].0 by {
                            assert(self.entries@[a] == before[a]);
                            if b < before.len() {
                                assert(self.entries@[b] == before[b]);
                            }
                        }
                    }
                }
            },
        }
        Ok(())
    }

    /// The maker/taker role of the waiting request `request_id`, an order
    /// with `instruction` on `side` (see [`order_role_of`]). A post-only
    /// order that would take liquidity is refused: its request leaves the
    /// registry and the answer is `OrderRejected("PostOnly order
    /// rejected")`, or `RequestNotFound` when the request is not there. A
    /// cancel instruction is `UnsupportedOrderKind`. Only a refused post-only
    /// request changes the registry.
    pub fn determine_maker_taker(
        &mut self,
        request_id: u64,
        instruction: OrderInstruction,
        side: Side,
        at_or_above_market: bool,
        at_or_below_market: bool,
    ) -> (r: Result<OrderRole, ExchangeError>)
        ensures
            match order_role_of(instruction, side, at_or_above_market, at_or_below_market) {
                Some(role) => r == Ok::<OrderRole, ExchangeError>(role) && final(self).entries@ == old(self).entries@,
                None => if instruction == OrderInstruction::PostOnly {
                    if holds_request(old(self).entries@, request_id) {
                        &&& r matches Err(ExchangeError::OrderRejected(m)) && m@ == "PostOnly order rejected"@
                        &&& exists|k: int|
                            0 <= k < old(self).entries@.len() && #[trigger] old(self).entries@[k].0 == request_id
                                && final(self).entries@ == old(self).entries@.remove(k)
                    } else {
                        &&& r == Err::<OrderRole, ExchangeError>(ExchangeError::RequestNotFound(request_id))
                        &&& final(self).entries@ == old(self).entries@
                    }
                } else {
                    r == Err::<OrderRole, ExchangeError>(ExchangeError::UnsupportedOrderKind(instruction))
                        && final(self).entries@ == old(self).entries@
                },
            },
            old(self).wf() ==> final(self).wf(),
    {
        match determine_order_role(instruction, side, at_or_above_market, at_or_below_market) {
            Ok(role) => Ok(role),
            Err(e) => {
                if instruction == OrderInstruction::PostOnly {
                    match self.remove_order_from_pending_registry(request_id) {
                        Ok(()) => Err(e),
                        Err(missing) => Err(missing),
                    }
                } else {
                    Err(e)
                }
            },
        }
    }
}

} // verus!
