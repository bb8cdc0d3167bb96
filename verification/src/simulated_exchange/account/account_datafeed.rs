//! A market-data feed of an account, with the id of the current batch.
use vstd::prelude::*;

verus! {

/// Where a feed's events come from: a live source or a historical one.
pub enum FeedKind<Live, Historical> {
    LiveFeed(Live),
    HistoricalFeed(Historical),
}

/// The batch id after one increment of `id`: one more, wrapping around
/// after `u64::MAX`.
pub open spec fn next_batch_id(id: u64) -> u64 {
    ((id + 1) % 0x1_0000_0000_0000_0000) as u64
}

/// The batch id after `k` increments of `id`, one after another.
pub open spec fn batch_id_after(id: u64, k: nat) -> u64
    decreases k,
{
    if k == 0 {
        id
    } else {
        next_batch_id(batch_id_after(id, (k - 1) as nat))
    }
}

/// Increments lose nothing: `k` increments, one after another, move the
/// batch id by `k`, wrapping around modulo 2^64.
pub proof fn lemma_increments_wrap_add(id: u64, k: nat)
    ensures
        batch_id_after(id, k) as int == (id + k) % 0x1_0000_0000_0000_0000,
    decreases k,
{
    if k > 0 {
        lemma_increments_wrap_add(id, (k - 1) as nat);
        let prev = batch_id_after(id, (k - 1) as nat);
        assert(((prev + 1) % 0x1_0000_0000_0000_0000) as int == (id + k) % 0x1_0000_0000_0000_0000) by (nonlinear_arith)
            requires
                prev as int == (id + (k - 1)) % 0x1_0000_0000_0000_0000,
                k > 0,
        {
            vstd::arithmetic::div_mod::lemma_add_mod_noop(id + k - 1, 1, 0x1_0000_0000_0000_0000);
        }
    }
}

/// A market-data feed and the id of the batch of events it is on.
pub struct AccountMarketFeed<Feed> {
    pub atomic_id: u64,
    pub data: Feed,
}

impl<Feed> AccountMarketFeed<Feed> {
    /// A feed on batch zero.
    pub fn new(data: Feed) -> (r: Self)
        ensures
            r.atomic_id == 0,
            r.data == data,
    {
        AccountMarketFeed { atomic_id: 0, data }
    }

    /// Moves the feed to the next batch; the id wraps around after
    /// `u64::MAX`, as an atomic add does.
    pub fn increment_batch_id(&mut self)
        ensures
            final(self).atomic_id == next_batch_id(old(self).atomic_id),
            final(self).data == old(self).data,
    {
        if self.atomic_id == u64::MAX {
            self.atomic_id = 0;
            assert(0x1_0000_0000_0000_0000int % 0x1_0000_0000_0000_0000 == 0);
        } else {
            self.atomic_id = self.atomic_id + 1;
        }
    }

    /// The id of the current batch.
    pub fn get_batch_id(&self) -> (r: u64)
        ensures
            r == self.atomic_id,
    {
        self.atomic_id
    }
}

} // verus!
