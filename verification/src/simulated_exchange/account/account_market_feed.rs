//! The market-data streams an account listens to, by stream id.
use vstd::prelude::*;
use crate::common::Instrument;

verus! {

/// The id of a data stream.
pub type StreamID = String;

/// A data stream: live or historical.
pub enum DataStreams<Live, Historical> {
    Live(Live),
    Historical(Historical),
}

/// What a stream subscribes to: an exchange, an instrument and a kind of data.
pub struct Subscription<Exchange, Kind> {
    pub exchange: Exchange,
    pub instrument: Instrument,
    pub kind: Kind,
}

/// The ids of a stream table, in table order.
pub open spec fn ids_of<S>(entries: Seq<(StreamID, S)>) -> Seq<Seq<char>> {
    entries.map_values(|e: (StreamID, S)| e.0@)
}

/// Whether a stream table holds `id`.
pub open spec fn holds_id<S>(entries: Seq<(StreamID, S)>, id: Seq<char>) -> bool {
    exists|i: int| 0 <= i < entries.len() && #[trigger] entries[i].0@ == id
}

/// Whether no two entries of a stream table share an id.
pub open spec fn ids_distinct<S>(entries: Seq<(StreamID, S)>) -> bool {
    forall|i: int, j: int| 0 <= i < j < entries.len() ==> #[trigger] entries[i].0@ != #[trigger] entries[j].0@
}

/// The streams of an account, each under its own id.
pub struct AccountDataStreams<S> {
    pub streams: Vec<(StreamID, S)>,
}

impl<S> AccountDataStreams<S> {
    /// The stream table: ids with their streams.
    pub open spec fn entries(&self) -> Seq<(StreamID, S)> {
        self.streams@
    }

    /// Whether every id occurs once.
    pub open spec fn wf(&self) -> bool {
        ids_distinct(self.entries())
    }

    /// An account without streams.
    pub fn new() -> (r: Self)
        ensures
            r.entries().len() == 0,
            r.wf(),
    {
        AccountDataStreams { streams: Vec::new() }
    }

    fn position(&self, id: &StreamID) -> (r: Option<usize>)
        ensures
            match r {
                Some(i) => i < self.entries().len() && self.entries()[i as int].0@ == id@,
                None => !holds_id(self.entries(), id@),
            },
    {
        let mut i: usize = 0;
        while i < self.streams.len()
            invariant
                i <= self.streams@.len(),
                forall|j: int| 0 <= j < i ==> self.streams@[j].0@ != id@,
            decreases self.streams@.len() - i,
        {
            if self.streams[i].0 == *id {
                return Some(i);
            }
            i = i + 1;
        }
        None
    }

    /// Adds a stream under `id`, replacing the stream already there.
    pub fn add_stream(&mut self, id: StreamID, stream: S)
        ensures
            old(self).wf() ==> final(self).wf(),
            holds_id(final(self).entries(), id@),
            holds_id(old(self).entries(), id@) ==> exists|i: int|
                0 <= i < old(self).entries().len() && old(self).entries()[i].0@ == id@
                && #[trigger] final(self).entries() == old(self).entries().update(i, (final(self).entries()[i].0, stream))
                && final(self).entries()[i].0@ == id@,
            !holds_id(old(self).entries(), id@) ==> final(self).entries() == old(self).entries().push((id, stream)),
    {
        match self.position(&id) {
            Some(i) => {
                self.streams.set(i, (id, stream));
                proof {
                    if old(self).wf() {
                        assert forall|a: int, b: int| 0 <= a < b < self.streams@.len() implies
                            #[trigger] self.streams@[a].0@ != #[trigger] self.streams@[b].0@ by {
                            if a != i && b != i {
                                assert(old(self).streams@[a] == self.streams@[a]);
                                assert(old(self).streams@[b] == self.streams@[b]);
                            } else if a == i {
                                assert(old(self).streams@[b] == self.streams@[b]);
                            } else {
                                assert(old(self).streams@[a] == self.streams@[a]);
                            }
                        }
                    }
                    assert(self.streams@ == old(self).streams@.update(i as int, (self.streams@[i as int].0, stream)));
                    assert(self.streams@[i as int].0@ == id@);
                }
            },
            None => {
                self.streams.push((id, stream));
                proof {
                    if old(self).wf() {
                        assert forall|a: int, b: int| 0 <= a < b < self.streams@.len() implies
                            #[trigger] self.streams@[a].0@ != #[trigger] self.streams@[b].0@ by {
                            assert(self.streams@[a] == old(self).streams@[a]);
                            if b < old(self).streams@.len() {
                                assert(self.streams@[b] == old(self).streams@[b]);
                            } else if self.streams@[a].0@ == self.streams@[b].0@ {
                                assert(holds_id(old(self).entries(), id@));
                            }
                        }
                    }
                    assert(self.streams@[old(self).streams@.len() as int].0@ == id@);
                }
            },
        }
    }

    /// Removes the stream under `id`, if there is one; the other streams
    /// keep their order.
    pub fn remove_stream(&mut self, id: StreamID)
        ensures
            old(self).wf() ==> final(self).wf(),
            old(self).wf() ==> !holds_id(final(self).entries(), id@),
            holds_id(old(self).entries(), id@) ==> exists|i: int|
                0 <= i < old(self).entries().len() && old(self).entries()[i].0@ == id@
                && #[trigger] final(self).entries() == old(self).entries().remove(i),
            !holds_id(old(self).entries(), id@) ==> final(self).entries() == old(self).entries(),
    {
        match self.position(&id) {
            Some(i) => {
                let ghost before = self.streams@;
                let _removed = self.streams.remove(i);
                proof {
                    assert(self.streams@ == before.remove(i as int));
                    if old(self).wf() {
                        assert forall|a: int, b: int| 0 <= a < b < self.streams@.len() implies
                            #[trigger] self.streams@[a].0@ != #[trigger] self.streams@[b].0@ by {
                            let a0 = if a < i { a } else { a + 1 };
                            let b0 = if b < i { b } else { b + 1 };
                            assert(self.streams@[a] == before[a0]);
                            assert(self.streams@[b] == before[b0]);
                        }
                        if holds_id(self.streams@, id@) {
                            let k = choose|k: int| 0 <= k < self.streams@.len() && #[trigger] self.streams@[k].0@ == id@;
                            let k0 = if k < i { k } else { k + 1 };
                            assert(self.streams@[k] == before[k0]);
                            assert(before[k0].0@ == before[i as int].0@);
                        }
                    }
                }
            },
            None => {},
        }
    }
}

} // verus!
