//! The positions an account holds, looked up by instrument and side.
use vstd::prelude::*;
use vstd::string::*;
use crate::common::{instrument_debug, ExchangeError, Instrument, InstrumentKind, InstrumentView, Side};

verus! {

/// A position as the account's rules see it: its instrument and side, and
/// the position's own figures, which those rules carry along unread.
pub struct PositionSlot<P> {
    pub instrument: Instrument,
    pub side: Side,
    pub detail: P,
}

/// Whether some position in `s` is on `instrument` with a side other than `side`.
pub open spec fn opposite_exists<P>(s: Seq<PositionSlot<P>>, instrument: InstrumentView, side: Side) -> bool {
    exists|i: int| 0 <= i < s.len() && #[trigger] s[i].instrument@ == instrument && s[i].side != side
}

/// Whether some position in `s` is on `instrument`.
pub open spec fn instrument_held<P>(s: Seq<PositionSlot<P>>, instrument: InstrumentView) -> bool {
    exists|i: int| 0 <= i < s.len() && #[trigger] s[i].instrument@ == instrument
}

/// The index of the first position in `s` on `instrument`, or -1.
pub open spec fn first_on<P>(s: Seq<PositionSlot<P>>, instrument: InstrumentView) -> int
    decreases s.len(),
{
    if s.len() == 0 {
        -1
    } else if first_on(s.drop_last(), instrument) >= 0 {
        first_on(s.drop_last(), instrument)
    } else if s.last().instrument@ == instrument {
        s.len() - 1
    } else {
        -1
    }
}

proof fn lemma_first_on<P>(s: Seq<PositionSlot<P>>, instrument: InstrumentView)
    ensures
        -1 <= first_on(s, instrument) < s.len(),
        first_on(s, instrument) >= 0 ==> s[first_on(s, instrument)].instrument@ == instrument,
        first_on(s, instrument) >= 0 ==> forall|j: int| 0 <= j < first_on(s, instrument) ==> s[j].instrument@ != instrument,
        (first_on(s, instrument) >= 0) == instrument_held(s, instrument),
    decreases s.len(),
{
    if s.len() > 0 {
        let t = s.drop_last();
        lemma_first_on(t, instrument);
        if first_on(t, instrument) >= 0 {
            let k = first_on(t, instrument);
            assert(s[k] == t[k]);
            assert forall|j: int| 0 <= j < k implies s[j].instrument@ != instrument by {
                assert(s[j] == t[j]);
            }
        } else {
            assert forall|j: int| 0 <= j < s.len() - 1 implies s[j].instrument@ != instrument by {
                assert(s[j] == t[j]);
                if s[j].instrument@ == instrument {
                    assert(instrument_held(t, instrument));
                }
            }
            if instrument_held(s, instrument) {
                let i = choose|i: int| 0 <= i < s.len() && #[trigger] s[i].instrument@ == instrument;
                assert(i == s.len() - 1);
            }
        }
    }
}

fn find_first<P>(v: &Vec<PositionSlot<P>>, instrument: &Instrument) -> (r: Option<usize>)
    ensures
        match r {
            Some(i) => i as int == first_on(v@, instrument@),
            None => first_on(v@, instrument@) == -1,
        },
{
    proof {
        lemma_first_on(v@, instrument@);
    }
    let mut i: usize = 0;
    while i < v.len()
        invariant
            i <= v@.len(),
            forall|j: int| 0 <= j < i ==> v@[j].instrument@ != instrument@,
            -1 <= first_on(v@, instrument@) < v@.len(),
            first_on(v@, instrument@) >= 0 ==> v@[first_on(v@, instrument@)].instrument@ == instrument@,
            first_on(v@, instrument@) >= 0 ==> forall|j: int| 0 <= j < first_on(v@, instrument@) ==> v@[j].instrument@ != instrument@,
            (first_on(v@, instrument@) >= 0) == instrument_held(v@, instrument@),
        decreases v@.len() - i,
    {
        if v[i].instrument.same_as(instrument) {
            return Some(i);
        }
        i = i + 1;
    }
    proof {
        if instrument_held(v@, instrument@) {
            let k = choose|k: int| 0 <= k < v@.len() && #[trigger] v@[k].instrument@ == instrument@;
            assert(v@[k].instrument@ != instrument@);
        }
    }
    None
}

fn any_opposite<P>(v: &Vec<PositionSlot<P>>, instrument: &Instrument, side: Side) -> (r: bool)
    ensures
        r == opposite_exists(v@, instrument@, side),
{
    let mut i: usize = 0;
    while i < v.len()
        invariant
            i <= v@.len(),
            forall|j: int| 0 <= j < i ==> !(v@[j].instrument@ == instrument@ && v@[j].side != side),
        decreases v@.len() - i,
    {
        if v[i].instrument.same_as(instrument) && v[i].side != side {
            return true;
        }
        i = i + 1;
    }
    false
}

fn any_on<P>(v: &Vec<PositionSlot<P>>, instrument: &Instrument) -> (r: bool)
    ensures
        r == instrument_held(v@, instrument@),
{
    let found = find_first(v, instrument);
    proof {
        lemma_first_on(v@, instrument@);
    }
    found.is_some()
}

/// The positions of an account, one list per instrument kind that holds
/// positions.
pub struct AccountPositions<P> {
    pub perpetual_pos: Vec<PositionSlot<P>>,
    pub futures_pos: Vec<PositionSlot<P>>,
    pub option_pos: Vec<PositionSlot<P>>,
    pub margin_pos: Vec<PositionSlot<P>>,
}

impl<P> AccountPositions<P> {
    /// The list that holds positions of a kind (leveraged tokens are held
    /// as margin positions); spot and commodity kinds hold none here.
    pub open spec fn list_of(self, kind: InstrumentKind) -> Seq<PositionSlot<P>> {
        match kind {
            InstrumentKind::Perpetual => self.perpetual_pos@,
            InstrumentKind::Future => self.futures_pos@,
            InstrumentKind::CryptoOption => self.option_pos@,
            InstrumentKind::CryptoLeveragedToken => self.margin_pos@,
            _ => Seq::empty(),
        }
    }

    /// An account without positions.
    pub fn new() -> (r: Self)
        ensures
            r.perpetual_pos@.len() == 0,
            r.futures_pos@.len() == 0,
            r.option_pos@.len() == 0,
            r.margin_pos@.len() == 0,
    {
        AccountPositions { perpetual_pos: Vec::new(), futures_pos: Vec::new(), option_pos: Vec::new(), margin_pos: Vec::new() }
    }

    /// Whether the account holds a position on the instrument, in the list
    /// of the instrument's kind.
    pub fn has_position(&self, instrument: &Instrument) -> (r: bool)
        ensures
            r == instrument_held(self.list_of(instrument.kind), instrument@),
    {
        match instrument.kind {
            InstrumentKind::Perpetual => any_on(&self.perpetual_pos, instrument),
            InstrumentKind::Future => any_on(&self.futures_pos, instrument),
            InstrumentKind::CryptoOption => any_on(&self.option_pos, instrument),
            InstrumentKind::CryptoLeveragedToken => any_on(&self.margin_pos, instrument),
            _ => false,
        }
    }

    /// The first position held on the instrument. Spot instruments have no
    /// positions and are refused with `InvalidInstrument`; commodity kinds
    /// are not handled.
    pub fn get_position(&self, instrument: &Instrument) -> (r: Result<Option<&PositionSlot<P>>, ExchangeError>)
        requires
            instrument.kind != InstrumentKind::CommodityOption,
            instrument.kind != InstrumentKind::CommodityFuture,
        ensures
            instrument.kind == InstrumentKind::Spot ==> (r matches Err(ExchangeError::InvalidInstrument(m)) && m@
                == "Spots do not support positions: "@ + instrument_debug(instrument@)),
            instrument.kind != InstrumentKind::Spot ==> match r {
                Ok(Some(p)) => {
                    let s = self.list_of(instrument.kind);
                    first_on(s, instrument@) >= 0 && *p == s[first_on(s, instrument@)]
                },
                Ok(None) => !instrument_held(self.list_of(instrument.kind), instrument@),
                Err(_) => false,
            },
    {
        let list = match instrument.kind {
            InstrumentKind::Perpetual => &self.perpetual_pos,
            InstrumentKind::Future => &self.futures_pos,
            InstrumentKind::CryptoOption => &self.option_pos,
            InstrumentKind::CryptoLeveragedToken => &self.margin_pos,
            _ => {
                let mut m = String::from_str("Spots do not support positions: ");
                m.append(instrument.debug_string().as_str());
                return Err(ExchangeError::InvalidInstrument(m));
            },
        };
        proof {
            lemma_first_on(list@, instrument@);
        }
        match find_first(list, instrument) {
            Some(i) => Ok(Some(&list[i])),
            None => Ok(None),
        }
    }

    /// Replaces the first perpetual position on the same instrument, or adds
    /// the position when there is none. Never fails.
    pub fn set_perpetual_position(&mut self, pos: PositionSlot<P>) -> (r: Result<(), ExchangeError>)
        ensures
            r is Ok,
            final(self).perpetual_pos@ == after_set(old(self).perpetual_pos@, pos),
            final(self).futures_pos@ == old(self).futures_pos@,
            final(self).option_pos@ == old(self).option_pos@,
            final(self).margin_pos@ == old(self).margin_pos@,
    {
        proof {
            lemma_first_on(self.perpetual_pos@, pos.instrument@);
        }
        match find_first(&self.perpetual_pos, &pos.instrument) {
            Some(i) => {
                self.perpetual_pos.set(i, pos);
            },
            None => {
                self.perpetual_pos.push(pos);
            },
        }
        Ok(())
    }

    /// Refuses an order when the account holds a position on its instrument
    /// in the other direction (`InvalidDirection`). Spot and commodity
    /// instruments are not checked and give `NotImplemented`.
    pub fn check_position_direction_conflict(&self, instrument: &Instrument, side: Side) -> (r: Result<(), ExchangeError>)
        ensures
            (instrument.kind == InstrumentKind::Spot || instrument.kind == InstrumentKind::CommodityOption
                || instrument.kind == InstrumentKind::CommodityFuture) ==> r matches Err(ExchangeError::NotImplemented(_)),
            !(instrument.kind == InstrumentKind::Spot || instrument.kind == InstrumentKind::CommodityOption
                || instrument.kind == InstrumentKind::CommodityFuture) ==> match r {
                Ok(()) => !opposite_exists(self.list_of(instrument.kind), instrument@, side),
                Err(e) => e == ExchangeError::InvalidDirection && opposite_exists(self.list_of(instrument.kind), instrument@, side),
            },
    {
        let list = match instrument.kind {
            InstrumentKind::Spot => {
                return Err(ExchangeError::NotImplemented(String::from_str("Spot position conflict check not implemented")));
            },
            InstrumentKind::CommodityOption => {
                return Err(ExchangeError::NotImplemented(String::from_str("CommodityOption position conflict check not implemented")));
            },
            InstrumentKind::CommodityFuture => {
                return Err(ExchangeError::NotImplemented(String::from_str("CommodityFuture position conflict check not implemented")));
            },
            InstrumentKind::Perpetual => &self.perpetual_pos,
            InstrumentKind::Future => &self.futures_pos,
            InstrumentKind::CryptoOption => &self.option_pos,
            InstrumentKind::CryptoLeveragedToken => &self.margin_pos,
        };
        if any_opposite(list, instrument, side) {
            Err(ExchangeError::InvalidDirection)
        } else {
            Ok(())
        }
    }
}

/// The positions of an account that holds long and short positions apart,
/// at most one per instrument in each list.
pub struct LongShortPositions<P> {
    pub margin_pos_long: Vec<PositionSlot<P>>,
    pub margin_pos_short: Vec<PositionSlot<P>>,
    pub perpetual_pos_long: Vec<PositionSlot<P>>,
    pub perpetual_pos_short: Vec<PositionSlot<P>>,
    pub futures_pos_long: Vec<PositionSlot<P>>,
    pub futures_pos_short: Vec<PositionSlot<P>>,
    pub option_pos_long_call: Vec<PositionSlot<P>>,
    pub option_pos_long_put: Vec<PositionSlot<P>>,
    pub option_pos_short_call: Vec<PositionSlot<P>>,
    pub option_pos_short_put: Vec<PositionSlot<P>>,
}

/// The position in `s` on `instrument`, if there is one.
pub open spec fn held_on<P>(s: Seq<PositionSlot<P>>, instrument: InstrumentView) -> Option<PositionSlot<P>> {
    if first_on(s, instrument) >= 0 { Some(s[first_on(s, instrument)]) } else { None }
}

/// `s` without its position on `instrument`.
pub open spec fn without<P>(s: Seq<PositionSlot<P>>, instrument: InstrumentView) -> Seq<PositionSlot<P>> {
    if first_on(s, instrument) >= 0 { s.remove(first_on(s, instrument)) } else { s }
}

/// The lists of a [`LongShortPositions`], in a fixed order: margin long and
/// short, perpetual long and short, futures long and short, then options
/// long call, long put, short call and short put.
pub open spec fn lists_of<P>(p: LongShortPositions<P>) -> Seq<Seq<PositionSlot<P>>> {
    seq![
        p.margin_pos_long@, p.margin_pos_short@, p.perpetual_pos_long@, p.perpetual_pos_short@,
        p.futures_pos_long@, p.futures_pos_short@, p.option_pos_long_call@, p.option_pos_long_put@,
        p.option_pos_short_call@, p.option_pos_short_put@,
    ]
}

/// The place in [`lists_of`] of the positions of a kind and side (the call
/// list for options), or -1 for kinds without positions.
pub open spec fn list_slot(kind: InstrumentKind, side: Side) -> int {
    let long = side == Side::Buy;
    match kind {
        InstrumentKind::CryptoLeveragedToken => if long { 0 } else { 1 },
        InstrumentKind::Perpetual => if long { 2 } else { 3 },
        InstrumentKind::Future => if long { 4 } else { 5 },
        InstrumentKind::CryptoOption => if long { 6 } else { 8 },
        _ => -1,
    }
}

fn take_from<P>(v: &mut Vec<PositionSlot<P>>, instrument: &Instrument) -> (r: Option<PositionSlot<P>>)
    ensures
        r == held_on(old(v)@, instrument@),
        final(v)@ == without(old(v)@, instrument@),
{
    proof {
        lemma_first_on(v@, instrument@);
    }
    match find_first(v, instrument) {
        Some(i) => Some(v.remove(i)),
        None => None,
    }
}

impl<P> LongShortPositions<P> {
    /// Whether every list holds at most one position per instrument.
    pub open spec fn wf(self) -> bool {
        forall|k: int| 0 <= k < 10 ==> one_per_instrument(#[trigger] lists_of(self)[k])
    }

    /// An account without positions.
    pub fn new() -> (r: Self)
        ensures
            r.wf(),
            forall|k: int| 0 <= k < 10 ==> (#[trigger] lists_of(r)[k]).len() == 0,
    {
        let r = LongShortPositions {
            margin_pos_long: Vec::new(),
            margin_pos_short: Vec::new(),
            perpetual_pos_long: Vec::new(),
            perpetual_pos_short: Vec::new(),
            futures_pos_long: Vec::new(),
            futures_pos_short: Vec::new(),
            option_pos_long_call: Vec::new(),
            option_pos_long_put: Vec::new(),
            option_pos_short_call: Vec::new(),
            option_pos_short_put: Vec::new(),
        };
        assert forall|k: int| 0 <= k < 10 implies (#[trigger] lists_of(r)[k]).len() == 0 by {}
        r
    }

    /// Refuses an order that would trade against a held position of the
    /// other direction on a perpetual or future: a buy while a short position
    /// is held, a sell while a long one is (`InvalidDirection`); reduce-only
    /// orders are always allowed. Other instrument kinds give `NotImplemented`.
    pub fn check_position_direction_conflict(&self, instrument: &Instrument, new_order_side: Side, is_reduce_only: bool) -> (r: Result<(), ExchangeError>)
        ensures
            (instrument.kind != InstrumentKind::Perpetual && instrument.kind != InstrumentKind::Future)
                ==> r matches Err(ExchangeError::NotImplemented(_)),
            (instrument.kind == InstrumentKind::Perpetual || instrument.kind == InstrumentKind::Future) ==> {
                let long = lists_of(*self)[list_slot(instrument.kind, Side::Buy)];
                let short = lists_of(*self)[list_slot(instrument.kind, Side::Sell)];
                let conflict = !is_reduce_only && ((new_order_side == Side::Buy && instrument_held(short, instrument@))
                    || (new_order_side == Side::Sell && instrument_held(long, instrument@)));
                match r {
                    Ok(()) => !conflict,
                    Err(e) => conflict && e == ExchangeError::InvalidDirection,
                }
            },
    {
        let (long, short) = match instrument.kind {
            InstrumentKind::Perpetual => (&self.perpetual_pos_long, &self.perpetual_pos_short),
            InstrumentKind::Future => (&self.futures_pos_long, &self.futures_pos_short),
            InstrumentKind::Spot => {
                return Err(ExchangeError::NotImplemented(String::from_str("Spot account_positions conflict check not implemented")));
            },
            InstrumentKind::CommodityOption | InstrumentKind::CommodityFuture => {
                return Err(ExchangeError::NotImplemented(String::from_str("Commodity account_positions conflict check not implemented")));
            },
            InstrumentKind::CryptoOption | InstrumentKind::CryptoLeveragedToken => {
                return Err(ExchangeError::NotImplemented(String::from_str("Position conflict check for this instrument kind not implemented")));
            },
        };
        let long_position_exists = any_on(long, instrument);
        let short_position_exists = any_on(short, instrument);
        if is_reduce_only {
            return Ok(());
        }
        if (new_order_side == Side::Buy && short_position_exists) || (new_order_side == Side::Sell && long_position_exists) {
            return Err(ExchangeError::InvalidDirection);
        }
        Ok(())
    }

    /// The long (`Side::Buy`) or short (`Side::Sell`) perpetual position on
    /// the instrument. Spot instruments have no positions
    /// (`InvalidInstrument`); only perpetual positions are looked up.
    pub fn get_position(&self, instrument: &Instrument, side: Side) -> (r: Result<Option<&PositionSlot<P>>, ExchangeError>)
        requires
            instrument.kind == InstrumentKind::Spot || instrument.kind == InstrumentKind::Perpetual,
        ensures
            instrument.kind == InstrumentKind::Spot ==> (r matches Err(ExchangeError::InvalidInstrument(m)) && m@
                == "Spots do not support positions: "@ + instrument_debug(instrument@)),
            instrument.kind == InstrumentKind::Perpetual ==> match r {
                Ok(Some(p)) => held_on(lists_of(*self)[list_slot(instrument.kind, side)], instrument@) == Some(*p),
                Ok(None) => held_on(lists_of(*self)[list_slot(instrument.kind, side)], instrument@) is None,
                Err(_) => false,
            },
    {
        if instrument.kind == InstrumentKind::Spot {
            let mut m = String::from_str("Spots do not support positions: ");
            m.append(instrument.debug_string().as_str());
            return Err(ExchangeError::InvalidInstrument(m));
        }
        let list = match side {
            Side::Buy => &self.perpetual_pos_long,
            Side::Sell => &self.perpetual_pos_short,
        };
        proof {
            lemma_first_on(list@, instrument@);
        }
        match find_first(list, instrument) {
            Some(i) => Ok(Some(&list[i])),
            None => Ok(None),
        }
    }

    /// Removes and returns the position on the instrument held on `side`:
    /// for options, the call position, or else the put position; kinds
    /// without positions give `None`.
    pub fn remove_position(&mut self, instrument: &Instrument, side: Side) -> (r: Option<PositionSlot<P>>)
        ensures
            old(self).wf() ==> final(self).wf(),
            list_slot(instrument.kind, side) < 0 ==> r is None && lists_of(*final(self)) == lists_of(*old(self)),
            (list_slot(instrument.kind, side) >= 0 && instrument.kind != InstrumentKind::CryptoOption) ==> {
                let k = list_slot(instrument.kind, side);
                &&& r == held_on(lists_of(*old(self))[k], instrument@)
                &&& lists_of(*final(self)) == lists_of(*old(self)).update(k, without(lists_of(*old(self))[k], instrument@))
                &&& old(self).wf() ==> !instrument_held(lists_of(*final(self))[k], instrument@)
            },
            instrument.kind == InstrumentKind::CryptoOption ==> {
                let call = list_slot(instrument.kind, side);
                let put = call + 1;
                let old_lists = lists_of(*old(self));
                if held_on(old_lists[call], instrument@) is Some {
                    &&& r == held_on(old_lists[call], instrument@)
                    &&& lists_of(*final(self)) == old_lists.update(call, without(old_lists[call], instrument@))
                } else {
                    &&& r == held_on(old_lists[put], instrument@)
                    &&& lists_of(*final(self)) == old_lists.update(put, without(old_lists[put], instrument@))
                }
            },
    {
        let ghost before = lists_of(*self);
        let r = match (instrument.kind, side) {
            (InstrumentKind::CryptoLeveragedToken, Side::Buy) => take_from(&mut self.margin_pos_long, instrument),
            (InstrumentKind::CryptoLeveragedToken, Side::Sell) => take_from(&mut self.margin_pos_short, instrument),
            (InstrumentKind::Perpetual, Side::Buy) => take_from(&mut self.perpetual_pos_long, instrument),
            (InstrumentKind::Perpetual, Side::Sell) => take_from(&mut self.perpetual_pos_short, instrument),
            (InstrumentKind::Future, Side::Buy) => take_from(&mut self.futures_pos_long, instrument),
            (InstrumentKind::Future, Side::Sell) => take_from(&mut self.futures_pos_short, instrument),
            (InstrumentKind::CryptoOption, Side::Buy) => {
                let call = take_from(&mut self.option_pos_long_call, instrument);
                if call.is_some() {
                    call
                } else {
                    take_from(&mut self.option_pos_long_put, instrument)
                }
            },
            (InstrumentKind::CryptoOption, Side::Sell) => {
                let call = take_from(&mut self.option_pos_short_call, instrument);
                if call.is_some() {
                    call
                } else {
                    take_from(&mut self.option_pos_short_put, instrument)
                }
            },
            _ => None,
        };
        proof {
            let after = lists_of(*self);
            if old(self).wf() {
                assert forall|k: int| 0 <= k < 10 implies one_per_instrument(#[trigger] after[k]) by {
                    assert(one_per_instrument(before[k]));
                    if after[k] != before[k] {
                        lemma_without_keeps_one(before[k], instrument@);
                    }
                }
            }
            if list_slot(instrument.kind, side) >= 0 && old(self).wf() {
                let k = list_slot(instrument.kind, side);
                assert(one_per_instrument(before[k]));
                lemma_without_keeps_one(before[k], instrument@);
            }
            if list_slot(instrument.kind, side) < 0 {
                assert(after =~= before);
            } else if instrument.kind != InstrumentKind::CryptoOption {
                let k = list_slot(instrument.kind, side);
                assert(after =~= before.update(k, without(before[k], instrument@)));
            } else {
                let call = list_slot(instrument.kind, side);
                if held_on(before[call], instrument@) is Some {
                    assert(after =~= before.update(call, without(before[call], instrument@)));
                } else {
                    assert(without(before[call], instrument@) == before[call]);
                    assert(after =~= before.update(call + 1, without(before[call + 1], instrument@)));
                }
            }
        }
        r
    }

    /// Stores a perpetual position in the list of its side (long for
    /// `Side::Buy`), replacing and returning the position held there on the
    /// same instrument.
    pub fn insert_perpetual_position(&mut self, pos: PositionSlot<P>) -> (r: Option<PositionSlot<P>>)
        ensures
            old(self).wf() ==> final(self).wf(),
            ({
                let k = list_slot(InstrumentKind::Perpetual, pos.side);
                &&& r == held_on(lists_of(*old(self))[k], pos.instrument@)
                &&& lists_of(*final(self)) == lists_of(*old(self)).update(k, after_set(lists_of(*old(self))[k], pos))
                &&& held_on(lists_of(*final(self))[k], pos.instrument@) == Some(pos)
            }),
    {
        let ghost before = lists_of(*self);
        let ghost k = list_slot(InstrumentKind::Perpetual, pos.side);
        let list = match pos.side {
            Side::Buy => &mut self.perpetual_pos_long,
            Side::Sell => &mut self.perpetual_pos_short,
        };
        proof {
            lemma_first_on(list@, pos.instrument@);
            lemma_set_then_get(list@, pos, pos.instrument@);
            if old(self).wf() {
                assert(one_per_instrument(before[k]));
                lemma_set_keeps_one_per_instrument(list@, pos);
            }
        }
        let ghost old_list = list@;
        let r = match find_first(list, &pos.instrument) {
            Some(i) => {
                let previous = list.remove(i);
                list.insert(i, pos);
                assert(list@ =~= old_list.update(i as int, pos));
                Some(previous)
            },
            None => {
                list.push(pos);
                None
            },
        };
        assert(list@ == after_set(old_list, pos));
        proof {
            let after = lists_of(*self);
            assert(after =~= before.update(k, after_set(before[k], pos)));
            if old(self).wf() {
                assert forall|j: int| 0 <= j < 10 implies one_per_instrument(#[trigger] after[j]) by {
                    assert(one_per_instrument(before[j]));
                }
            }
        }
        r
    }

    /// Closes the position that a trade on `side` closes: a buy closes the
    /// short position and a sell the long one. When there is none the
    /// account is left as it is and `AttemptToRemoveNonExistingPosition` is
    /// returned.
    pub fn close_position(&mut self, instrument: &Instrument, side: Side) -> (r: Result<(), ExchangeError>)
        ensures
            old(self).wf() ==> final(self).wf(),
            ({
                let closed = match side { Side::Buy => Side::Sell, Side::Sell => Side::Buy };
                let k = list_slot(instrument.kind, closed);
                &&& (instrument.kind != InstrumentKind::CryptoOption && k >= 0) ==> {
                    &&& (r is Ok <==> held_on(lists_of(*old(self))[k], instrument@) is Some)
                    &&& lists_of(*final(self)) == lists_of(*old(self)).update(k, without(lists_of(*old(self))[k], instrument@))
                    &&& old(self).wf() ==> !instrument_held(lists_of(*final(self))[k], instrument@)
                }
                &&& k < 0 ==> r == Err::<(), ExchangeError>(ExchangeError::AttemptToRemoveNonExistingPosition)
                    && lists_of(*final(self)) == lists_of(*old(self))
            }),
            r matches Err(e) ==> e == ExchangeError::AttemptToRemoveNonExistingPosition,
    {
        let closed = match side {
            Side::Buy => Side::Sell,
            Side::Sell => Side::Buy,
        };
        match self.remove_position(instrument, closed) {
            Some(_) => Ok(()),
            None => Err(ExchangeError::AttemptToRemoveNonExistingPosition),
        }
    }
}

proof fn lemma_without_keeps_one<P>(s: Seq<PositionSlot<P>>, instrument: InstrumentView)
    requires
        one_per_instrument(s),
    ensures
        one_per_instrument(without(s, instrument)),
        !instrument_held(without(s, instrument), instrument),
{
    lemma_first_on(s, instrument);
    let k = first_on(s, instrument);
    let t = without(s, instrument);
    if k >= 0 {
        assert forall|i: int, j: int| 0 <= i < j < t.len() implies #[trigger] t[i].instrument@ != #[trigger] t[j].instrument@ by {
            let i0 = if i < k { i } else { i + 1 };
            let j0 = if j < k { j } else { j + 1 };
            assert(t[i] == s[i0]);
            assert(t[j] == s[j0]);
        }
        if instrument_held(t, instrument) {
            let j = choose|j: int| 0 <= j < t.len() && #[trigger] t[j].instrument@ == instrument;
            let j0 = if j < k { j } else { j + 1 };
            assert(t[j] == s[j0]);
        }
    }
}

} // verus!

verus! {

/// The perpetual positions after setting `pos`: the first position on its
/// instrument replaced, or `pos` added at the end.
pub open spec fn after_set<P>(s: Seq<PositionSlot<P>>, pos: PositionSlot<P>) -> Seq<PositionSlot<P>> {
    if first_on(s, pos.instrument@) >= 0 {
        s.update(first_on(s, pos.instrument@), pos)
    } else {
        s.push(pos)
    }
}

/// Whether no two positions in `s` are on the same instrument.
pub open spec fn one_per_instrument<P>(s: Seq<PositionSlot<P>>) -> bool {
    forall|i: int, j: int| 0 <= i < j < s.len() ==> #[trigger] s[i].instrument@ != #[trigger] s[j].instrument@
}

/// In the list of perpetual positions, a position that was set with
/// [`AccountPositions::set_perpetual_position`] is the first one found on
/// its instrument, and the first position found on every other instrument
/// is the one found before. (`get_position` searches the list of the
/// instrument's kind, so it reads the position back where that kind is
/// perpetual.)
pub proof fn lemma_set_then_get<P>(s: Seq<PositionSlot<P>>, pos: PositionSlot<P>, other: InstrumentView)
    ensures
        first_on(after_set(s, pos), pos.instrument@) >= 0,
        after_set(s, pos)[first_on(after_set(s, pos), pos.instrument@)] == pos,
        other != pos.instrument@ ==> first_on(after_set(s, pos), other) == first_on(s, other),
        other != pos.instrument@ && first_on(s, other) >= 0 ==> after_set(s, pos)[first_on(s, other)] == s[first_on(s, other)],
{
    let t = after_set(s, pos);
    lemma_first_on(s, pos.instrument@);
    lemma_first_on(s, other);
    lemma_first_on(t, pos.instrument@);
    lemma_first_on(t, other);
    let k = first_on(s, pos.instrument@);
    if k >= 0 {
        assert(t[k] == pos);
        assert forall|j: int| 0 <= j < k implies t[j].instrument@ != pos.instrument@ by {
            assert(t[j] == s[j]);
        }
        lemma_first_is(t, pos.instrument@, k);
    } else {
        assert(t[s.len() as int] == pos);
        assert forall|j: int| 0 <= j < s.len() implies t[j].instrument@ != pos.instrument@ by {
            assert(t[j] == s[j]);
            if s[j].instrument@ == pos.instrument@ {
                assert(instrument_held(s, pos.instrument@));
            }
        }
        lemma_first_is(t, pos.instrument@, s.len() as int);
    }
    if other != pos.instrument@ {
        let m = first_on(s, other);
        if m >= 0 {
            assert(t[m] == s[m]);
            assert forall|j: int| 0 <= j < m implies t[j].instrument@ != other by {
                if !(k >= 0 && j == k) {
                    assert(t[j] == s[j]);
                }
            }
            lemma_first_is(t, other, m);
        } else {
            assert forall|j: int| 0 <= j < t.len() implies t[j].instrument@ != other by {
                if j < s.len() && !(k >= 0 && j == k) {
                    assert(t[j] == s[j]);
                    if s[j].instrument@ == other {
                        assert(instrument_held(s, other));
                    }
                }
            }
            if instrument_held(t, other) {
                let j = choose|j: int| 0 <= j < t.len() && #[trigger] t[j].instrument@ == other;
                assert(t[j].instrument@ != other);
            }
        }
    }
}

proof fn lemma_first_is<P>(s: Seq<PositionSlot<P>>, instrument: InstrumentView, k: int)
    requires
        0 <= k < s.len(),
        s[k].instrument@ == instrument,
        forall|j: int| 0 <= j < k ==> s[j].instrument@ != instrument,
    ensures
        first_on(s, instrument) == k,
    decreases s.len(),
{
    lemma_first_on(s, instrument);
    assert(instrument_held(s, instrument));
    let f = first_on(s, instrument);
    if f < k {
        assert(s[f].instrument@ != instrument);
    } else if f > k {
        assert(s[k].instrument@ != instrument);
    }
}

/// Setting positions keeps at most one perpetual position per instrument.
pub proof fn lemma_set_keeps_one_per_instrument<P>(s: Seq<PositionSlot<P>>, pos: PositionSlot<P>)
    requires
        one_per_instrument(s),
    ensures
        one_per_instrument(after_set(s, pos)),
{
    let t = after_set(s, pos);
    lemma_first_on(s, pos.instrument@);
    let k = first_on(s, pos.instrument@);
    assert forall|i: int, j: int| 0 <= i < j < t.len() implies #[trigger] t[i].instrument@ != #[trigger] t[j].instrument@ by {
        if k >= 0 {
            if i == k {
                assert(t[j] == s[j]);
                assert(s[k].instrument@ == pos.instrument@);
            } else if j == k {
                assert(t[i] == s[i]);
                assert(s[k].instrument@ == pos.instrument@);
            } else {
                assert(t[i] == s[i]);
                assert(t[j] == s[j]);
            }
        } else {
            assert(t == s.push(pos));
            assert(t[i] == s[i]);
            if j == s.len() {
                if s[i].instrument@ == pos.instrument@ {
                    assert(instrument_held(s, pos.instrument@));
                }
            } else {
                assert(t[j] == s[j]);
            }
        }
    }
}

} // verus!
