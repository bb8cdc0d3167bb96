//! Trades as stored in ClickHouse, and how their text fields are read.
use vstd::prelude::*;
use vstd::string::*;
use crate::common::{Instrument, InstrumentKind, Token};
use crate::text::{after_first, after_last, before_first, count_char, ends_with, has_suffix, lemma_before_first_shape, lemma_count_positive_iff_contains, lower_case, scan_separator, to_lower};

verus! {

/// The text fields of a stored market trade that the parsing rules read:
/// the venue label (such as `binance-futures`), the symbol in `base_quote`
/// form, the side and the timestamp.
pub struct MarketTrade {
    pub exchange: String,
    pub symbol: String,
    pub side: String,
    pub timestamp: i64,
}

/// The instrument kind that a venue label names: with one `-`, a label whose
/// second part ends in `futures` (in any case) is a perpetual; with more, a
/// label whose last part ends in `future` is a future; everything else is spot.
pub open spec fn kind_of_label(label: Seq<char>) -> InstrumentKind {
    let n = count_char(label, '-');
    let last = lower_case(after_last(label, '-'));
    if n == 1 {
        if has_suffix(last, "futures"@) {
            InstrumentKind::Perpetual
        } else {
            InstrumentKind::Spot
        }
    } else if n >= 2 {
        if has_suffix(last, "future"@) {
            InstrumentKind::Future
        } else {
            InstrumentKind::Spot
        }
    } else {
        InstrumentKind::Spot
    }
}

/// The first part of `base_quote` when the symbol holds exactly one `_`.
pub open spec fn base_of_symbol(symbol: Seq<char>) -> Option<Seq<char>> {
    if count_char(symbol, '_') == 1 {
        Some(before_first(symbol, '_'))
    } else {
        None
    }
}

/// The second part of `base_quote` when the symbol holds exactly one `_`.
pub open spec fn quote_of_symbol(symbol: Seq<char>) -> Option<Seq<char>> {
    if count_char(symbol, '_') == 1 {
        Some(after_last(symbol, '_'))
    } else {
        None
    }
}

impl MarketTrade {
    /// The instrument kind named by the venue label (see [`kind_of_label`]).
    pub fn parse_kind(&self) -> (r: InstrumentKind)
        ensures
            r == kind_of_label(self.exchange@),
    {
        let (n, _first, last) = scan_separator(self.exchange.as_str(), '-');
        let last = to_lower(last.as_str());
        if n == 1 {
            if ends_with(last.as_str(), "futures") {
                InstrumentKind::Perpetual
            } else {
                InstrumentKind::Spot
            }
        } else if n > 2 || n == 2 {
            if ends_with(last.as_str(), "future") {
                InstrumentKind::Future
            } else {
                InstrumentKind::Spot
            }
        } else {
            InstrumentKind::Spot
        }
    }

    /// The instrument of the trade: the first two `_`-separated parts of the
    /// symbol as base and quote and the kind of the venue label; `None` when
    /// the symbol holds no `_`.
    pub fn parse_instrument(&self) -> (r: Option<Instrument>)
        ensures
            match r {
                Some(i) => {
                    &&& self.symbol@.contains('_')
                    &&& i.base@ == before_first(self.symbol@, '_')
                    &&& i.quote@ == before_first(after_first(self.symbol@, '_'), '_')
                    &&& i.kind == kind_of_label(self.exchange@)
                },
                None => !self.symbol@.contains('_'),
            },
    {
        let s = self.symbol.as_str();
        let (n, first, _last) = scan_separator(s, '_');
        proof {
            lemma_count_positive_iff_contains(s@, '_');
        }
        if n >= 1 {
            proof {
                lemma_before_first_shape(s@, '_');
            }
            let len = s.unicode_len();
            let start = first.as_str().unicode_len() + 1;
            let rest = s.substring_char(start, len);
            assert(rest@ =~= after_first(s@, '_'));
            let (_m, second, _tail) = scan_separator(rest, '_');
            let kind = self.parse_kind();
            Some(Instrument { base: Token(first), quote: Token(second), kind })
        } else {
            None
        }
    }

    /// The base part of the symbol (see [`base_of_symbol`]).
    pub fn parse_base(&self) -> (r: Option<String>)
        ensures
            match r {
                Some(b) => base_of_symbol(self.symbol@) == Some(b@),
                None => base_of_symbol(self.symbol@) is None,
            },
    {
        let (n, first, _last) = scan_separator(self.symbol.as_str(), '_');
        if n == 1 {
            Some(first)
        } else {
            None
        }
    }

    /// The quote part of the symbol (see [`quote_of_symbol`]).
    pub fn parse_quote(&self) -> (r: Option<String>)
        ensures
            match r {
                Some(q) => quote_of_symbol(self.symbol@) == Some(q@),
                None => quote_of_symbol(self.symbol@) is None,
            },
    {
        let (n, _first, last) = scan_separator(self.symbol.as_str(), '_');
        if n == 1 {
            Some(last)
        } else {
            None
        }
    }
}

} // verus!

verus! {

/// A symbol that parses into base and quote is exactly `base_quote`.
pub proof fn lemma_base_quote_reassemble(symbol: Seq<char>)
    requires
        base_of_symbol(symbol) is Some,
    ensures
        quote_of_symbol(symbol) is Some,
        base_of_symbol(symbol)->0 + seq!['_'] + quote_of_symbol(symbol)->0 == symbol,
{
    lemma_count_positive_iff_contains(symbol, '_');
    lemma_before_first_shape(symbol, '_');
    let b = before_first(symbol, '_');
    lemma_single_separator_after_last(symbol, '_');
    assert(symbol =~= b + seq!['_'] + symbol.skip(b.len() as int + 1));
}

proof fn lemma_count_take_skip(s: Seq<char>, c: char, k: int)
    requires
        0 <= k <= s.len(),
    ensures
        count_char(s, c) == count_char(s.take(k), c) + count_char(s.skip(k), c),
    decreases s.len() - k,
{
    if k == s.len() {
        assert(s.take(k) =~= s);
        assert(s.skip(k) =~= Seq::<char>::empty());
    } else {
        lemma_count_take_skip(s, c, k + 1);
        assert(s.take(k + 1).drop_last() =~= s.take(k));
        assert(s.take(k + 1).last() == s[k]);
        lemma_count_prepend(s.skip(k), c);
        assert(s.skip(k).drop_first() =~= s.skip(k + 1));
        assert(s.skip(k)[0] == s[k]);
    }
}

proof fn lemma_count_prepend(s: Seq<char>, c: char)
    requires
        s.len() > 0,
    ensures
        count_char(s, c) == count_char(s.drop_first(), c) + if s[0] == c { 1nat } else { 0nat },
    decreases s.len(),
{
    if s.len() > 1 {
        lemma_count_prepend(s.drop_last(), c);
        assert(s.drop_last().drop_first() =~= s.drop_first().drop_last());
        assert(s.drop_first().last() == s.last());
    } else {
        assert(s.drop_first() =~= Seq::<char>::empty());
        assert(s.drop_last() =~= Seq::<char>::empty());
    }
}

proof fn lemma_after_last_absent(s: Seq<char>, c: char)
    requires
        !s.contains(c),
    ensures
        after_last(s, c) == s,
    decreases s.len(),
{
    if s.len() > 0 {
        assert(!s.drop_last().contains(c)) by {
            if s.drop_last().contains(c) {
                let k = choose|k: int| 0 <= k < s.drop_last().len() && s.drop_last()[k] == c;
                assert(s[k] == c);
            }
        }
        assert(s.last() != c) by {
            if s.last() == c {
                assert(s[s.len() - 1] == c);
            }
        }
        lemma_after_last_absent(s.drop_last(), c);
        assert(s.drop_last().push(s.last()) =~= s);
    }
}

proof fn lemma_after_last_split(s: Seq<char>, c: char, k: int)
    requires
        0 <= k < s.len(),
        s[k] == c,
        !s.skip(k + 1).contains(c),
    ensures
        after_last(s, c) == s.skip(k + 1),
    decreases s.len(),
{
    if s.len() - 1 == k {
        assert(s.skip(k + 1) =~= Seq::<char>::empty());
    } else {
        let t = s.drop_last();
        assert(t.skip(k + 1) =~= s.skip(k + 1).drop_last());
        let tail = t.skip(k + 1);
        assert(!tail.contains(c)) by {
            if tail.contains(c) {
                let j = choose|j: int| 0 <= j < tail.len() && #[trigger] tail[j] == c;
                assert(s.skip(k + 1)[j] == c);
            }
        }
        assert(s.last() != c) by {
            assert(s.skip(k + 1)[s.len() - k - 2] == s.last());
        }
        lemma_after_last_split(t, c, k);
        assert(t.skip(k + 1).push(s.last()) =~= s.skip(k + 1));
    }
}

proof fn lemma_single_separator_after_last(s: Seq<char>, c: char)
    requires
        count_char(s, c) == 1,
    ensures
        after_last(s, c) == s.skip(before_first(s, c).len() as int + 1),
{
    lemma_count_positive_iff_contains(s, c);
    lemma_before_first_shape(s, c);
    let k = before_first(s, c).len() as int;
    lemma_count_take_skip(s, c, k + 1);
    lemma_count_positive_iff_contains(s.take(k + 1), c);
    assert(s.take(k + 1)[k] == c);
    lemma_count_positive_iff_contains(s.skip(k + 1), c);
    lemma_after_last_split(s, c, k);
}

} // verus!
