//! The balances of a simulated account and the order kinds it accepts.
use vstd::prelude::*;
use vstd::string::*;
use crate::common::{ExchangeError, OrderInstruction, Token, TokenBalance};
use num_traits::FromPrimitive;
use rand::Rng;

verus! {

/// Where an account's market data comes from.
#[derive(Clone, Copy, Debug, PartialEq, Eq, Structural)]
pub enum SubscriptionKind {
    ClickHouse,
    WebSocket,
    HTTP,
}

/// The order kinds the simulated exchange accepts: limit and post-only
/// orders; any other kind is `UnsupportedOrderKind`.
pub fn check_order_kind_support(kind: OrderInstruction) -> (r: Result<(), ExchangeError>)
    ensures
        r is Ok <==> (kind == OrderInstruction::Limit || kind == OrderInstruction::PostOnly),
        r matches Err(e) ==> e == ExchangeError::UnsupportedOrderKind(kind),
{
    match kind {
        OrderInstruction::Limit | OrderInstruction::PostOnly => Ok(()),
        unsupported => Err(ExchangeError::UnsupportedOrderKind(unsupported)),
    }
}

/// Draws a number of milliseconds uniformly from `[lo, hi]`
/// (`rand::thread_rng().gen_range`). Stated: the value lies in the range;
/// which value comes is chance.
#[verifier::external_body]
fn uniform_millis(lo: u64, hi: u64) -> (r: u64)
    requires
        lo <= hi,
    ensures
        lo <= r <= hi,
{
    rand::thread_rng().gen_range(lo..=hi)
}

/// Converts with `<i64 as num_traits::FromPrimitive>::from_u64`, which
/// gives the same number when it fits in `i64` and `None` otherwise.
#[verifier::external_body]
fn i64_from_u64(x: u64) -> (r: Option<i64>)
    ensures
        x <= i64::MAX ==> r == Some(x as i64),
        x > i64::MAX ==> r is None,
{
    i64::from_u64(x)
}

/// A random duration in milliseconds within `[min_millis, max_millis]`.
pub fn random_duration(min_millis: u64, max_millis: u64) -> (r: i64)
    requires
        min_millis <= max_millis,
        max_millis <= i64::MAX,
    ensures
        min_millis <= r <= max_millis,
{
    let random_millis = uniform_millis(min_millis, max_millis);
    match i64_from_u64(random_millis) {
        Some(v) => v,
        None => 0,
    }
}

/// The symbols of the tokens in a balance table, in table order.
pub open spec fn tokens_of<B>(entries: Seq<(Token, B)>) -> Seq<Seq<char>> {
    entries.map_values(|e: (Token, B)| e.0@)
}

/// The index of the entry for `token` in a balance table, or -1.
pub open spec fn index_of_token<B>(entries: Seq<(Token, B)>, token: Seq<char>) -> int
    decreases entries.len(),
{
    if entries.len() == 0 {
        -1
    } else if entries.last().0@ == token {
        entries.len() - 1
    } else {
        index_of_token(entries.drop_last(), token)
    }
}

proof fn lemma_index_of_token<B>(entries: Seq<(Token, B)>, token: Seq<char>)
    ensures
        -1 <= index_of_token(entries, token) < entries.len(),
        index_of_token(entries, token) >= 0 ==> entries[index_of_token(entries, token)].0@ == token,
        index_of_token(entries, token) < 0 ==> forall|j: int| 0 <= j < entries.len() ==> entries[j].0@ != token,
    decreases entries.len(),
{
    if entries.len() > 0 && entries.last().0@ != token {
        lemma_index_of_token(entries.drop_last(), token);
        assert forall|j: int| 0 <= j < entries.len() - 1 implies entries[j] == entries.drop_last()[j] by {}
    }
}

/// The balance of every configured token, one entry per token.
pub struct AccountBalances<B>(pub Vec<(Token, B)>);

impl<B: Copy> AccountBalances<B> {
    /// The table of balances: token symbols with their balances.
    pub closed spec fn entries(&self) -> Seq<(Token, B)> {
        self.0@
    }

    /// Whether no token has two entries in the table.
    pub open spec fn wf(&self) -> bool {
        forall|i: int, j: int|
            0 <= i < j < self.entries().len() ==> #[trigger] self.entries()[i].0@ != #[trigger] self.entries()[j].0@
    }

    /// The balance kept for `token`, if the table has an entry for it.
    pub open spec fn balance_of(&self, token: Seq<char>) -> Option<B> {
        let i = index_of_token(self.entries(), token);
        if i >= 0 { Some(self.entries()[i].1) } else { None }
    }

    fn locate(&self, token: &Token) -> (r: Option<usize>)
        ensures
            match r {
                Some(i) => i as int == index_of_token(self.entries(), token@) && i < self.entries().len(),
                None => index_of_token(self.entries(), token@) == -1,
            },
    {
        proof {
            lemma_index_of_token(self.0@, token@);
        }
        let mut i = self.0.len();
        while i > 0
            invariant
                i <= self.0@.len(),
                forall|j: int| i <= j < self.0@.len() ==> self.0@[j].0@ != token@,
                -1 <= index_of_token(self.0@, token@) < self.0@.len(),
                index_of_token(self.0@, token@) >= 0 ==> self.0@[index_of_token(self.0@, token@)].0@ == token@,
                index_of_token(self.0@, token@) < 0 ==> forall|j: int| 0 <= j < self.0@.len() ==> self.0@[j].0@ != token@,
            decreases i,
        {
            i = i - 1;
            if self.0[i].0.same_as(token) {
                proof {
                    lemma_last_match(self.0@, token@, i as int);
                }
                return Some(i);
            }
        }
        None
    }

    /// The balance of `token`; a token without an entry is refused with
    /// `Simulated("SimulatedExchange is not configured for Token: <token>")`.
    pub fn balance(&self, token: &Token) -> (r: Result<&B, ExchangeError>)
        ensures
            match r {
                Ok(b) => self.balance_of(token@) == Some(*b),
                Err(e) => {
                    &&& self.balance_of(token@) is None
                    &&& e matches ExchangeError::Simulated(m)
                    &&& m@ == "SimulatedExchange is not configured for Token: "@ + token@
                },
            },
    {
        match self.locate(token) {
            Some(i) => Ok(&self.0[i].1),
            None => {
                let mut m = String::from_str("SimulatedExchange is not configured for Token: ");
                m.append(token.0.as_str());
                Err(ExchangeError::Simulated(m))
            },
        }
    }

    /// The balance of `token`, to be changed in place (the same entry that
    /// [`Self::balance`] reads); a token without an entry is refused as
    /// there, and the table is left unchanged.
    pub fn balance_mut(&mut self, token: &Token) -> (r: Result<&mut B, ExchangeError>)
        ensures
            match r {
                Ok(b) => {
                    let i = index_of_token(old(self).entries(), token@);
                    &&& i >= 0
                    &&& *b == old(self).entries()[i].1
                    &&& final(self).entries() == old(self).entries().update(i, (old(self).entries()[i].0, *final(b)))
                },
                Err(e) => {
                    &&& old(self).balance_of(token@) is None
                    &&& final(self).entries() == old(self).entries()
                    &&& e matches ExchangeError::Simulated(m)
                    &&& m@ == "SimulatedExchange is not configured for Token: "@ + token@
                },
            },
    {
        match self.locate(token) {
            Some(i) => {
                let entry = &mut self.0[i];
                Ok(&mut entry.1)
            },
            None => {
                let mut m = String::from_str("SimulatedExchange is not configured for Token: ");
                m.append(token.0.as_str());
                Err(ExchangeError::Simulated(m))
            },
        }
    }

    /// Adds an entry for `token` with the balance `initial` when the table
    /// has none; an existing entry, and every other entry, stays as it is.
    pub fn initialize_token(&mut self, token: Token, initial: B)
        ensures
            old(self).wf() ==> final(self).wf(),
            forall|t: Seq<char>| t != token@ ==> #[trigger] final(self).balance_of(t) == old(self).balance_of(t),
            final(self).balance_of(token@) == (match old(self).balance_of(token@) {
                Some(b) => Some(b),
                None => Some(initial),
            }),
    {
        match self.locate(&token) {
            Some(_) => {},
            None => {
                let ghost before = self.0@;
                let ghost key = token@;
                self.0.push((token, initial));
                proof {
                    assert(self.0@.drop_last() =~= before);
                    assert forall|t: Seq<char>| t != key implies #[trigger] self.balance_of(t) == old(self).balance_of(t) by {
                        assert(index_of_token(self.0@, t) == index_of_token(before, t));
                        lemma_index_of_token(before, t);
                        let k = index_of_token(before, t);
                        if k >= 0 {
                            assert(self.0@[k] == before[k]);
                        }
                    }
                    lemma_index_of_token(before, key);
                    assert(index_of_token(self.0@, key) == before.len());
                    if old(self).wf() {
                        assert forall|a: int, b: int| 0 <= a < b < self.0@.len() implies #[trigger] self.0@[a].0@
                            != #[trigger] self.0@[b].0@ by {
                            assert(self.0@[a] == before[a]);
                            if b < before.len() {
                                assert(self.0@[b] == before[b]);
                            }
                        }
                    }
                }
            },
        }
    }

    /// Adds an entry with the balance `initial` for each of `tokens` that
    /// the table does not hold yet; existing entries stay as they are.
    pub fn initialize_tokens(&mut self, tokens: Vec<String>, initial: B)
        ensures
            old(self).wf() ==> final(self).wf(),
            forall|t: Seq<char>| #[trigger] final(self).balance_of(t) == (if old(self).balance_of(t) is Some {
                old(self).balance_of(t)
            } else if tokens@.map_values(|s: String| s@).contains(t) {
                Some(initial)
            } else {
                None
            }),
    {
        let ghost names = tokens@.map_values(|s: String| s@);
        let mut i: usize = 0;
        while i < tokens.len()
            invariant
                i <= tokens@.len(),
                names == tokens@.map_values(|s: String| s@),
                old(self).wf() ==> self.wf(),
                forall|t: Seq<char>| #[trigger] self.balance_of(t) == (if old(self).balance_of(t) is Some {
                    old(self).balance_of(t)
                } else if names.take(i as int).contains(t) {
                    Some(initial)
                } else {
                    None
                }),
            decreases tokens@.len() - i,
        {
            let name = tokens[i].clone();
            let ghost key = tokens@[i as int]@;
            assert(name@ == key);
            self.initialize_token(Token(name), initial);
            proof {
                assert(names.take(i + 1) =~= names.take(i as int).push(key));
                assert forall|t: Seq<char>| names.take(i + 1).contains(t) <==> (names.take(i as int).contains(t) || t == key) by {
                    if names.take(i + 1).contains(t) {
                        let k = choose|k: int| 0 <= k < names.take(i + 1).len() && #[trigger] names.take(i + 1)[k] == t;
                        if k < i {
                            assert(names.take(i as int)[k] == t);
                        }
                    }
                    if t == key {
                        assert(names.take(i + 1)[i as int] == t);
                    }
                    if names.take(i as int).contains(t) {
                        let k = choose|k: int| 0 <= k < names.take(i as int).len() && #[trigger] names.take(i as int)[k] == t;
                        assert(names.take(i + 1)[k] == t);
                    }
                }
            }
            i = i + 1;
        }
        assert(names.take(i as int) =~= names);
    }

    /// Every token with its balance, in table order: on a table where no
    /// token has two entries, each token comes exactly once.
    pub fn fetch_all(&self) -> (r: Vec<TokenBalance<B>>)
        ensures
            r@.len() == self.entries().len(),
            forall|i: int| 0 <= i < r@.len() ==> r@[i].token@ == self.entries()[i].0@ && r@[i].balance == self.entries()[i].1,
            self.wf() ==> forall|i: int, j: int| 0 <= i < j < r@.len() ==> #[trigger] r@[i].token@ != #[trigger] r@[j].token@,
    {
        let mut out: Vec<TokenBalance<B>> = Vec::new();
        let mut i: usize = 0;
        while i < self.0.len()
            invariant
                i <= self.0@.len(),
                out@.len() == i,
                forall|j: int| 0 <= j < i ==> out@[j].token@ == self.0@[j].0@ && out@[j].balance == self.0@[j].1,
            decreases self.0@.len() - i,
        {
            let token = self.0[i].0.duplicate();
            let balance = self.0[i].1;
            out.push(TokenBalance { token, balance });
            i = i + 1;
        }
        out
    }
}

proof fn lemma_last_match<B>(entries: Seq<(Token, B)>, token: Seq<char>, i: int)
    requires
        0 <= i < entries.len(),
        entries[i].0@ == token,
        forall|j: int| i < j < entries.len() ==> entries[j].0@ != token,
    ensures
        index_of_token(entries, token) == i,
    decreases entries.len(),
{
    if i < entries.len() - 1 {
        lemma_last_match(entries.drop_last(), token, i);
    }
}

} // verus!

verus! {

/// A balance written through [`AccountBalances::balance_mut`] is the one
/// that [`AccountBalances::balance`] reads back for that token.
pub proof fn lemma_balance_after_write<B>(entries: Seq<(Token, B)>, token: Seq<char>, value: B)
    requires
        index_of_token(entries, token) >= 0,
    ensures
        ({
            let i = index_of_token(entries, token);
            let written = entries.update(i, (entries[i].0, value));
            index_of_token(written, token) == i && written[i].1 == value
        }),
{
    lemma_index_of_token(entries, token);
    let i = index_of_token(entries, token);
    let written = entries.update(i, (entries[i].0, value));
    assert forall|j: int| i < j < written.len() implies written[j].0@ != token by {
        assert(written[j] == entries[j]);
        if entries[j].0@ == token {
            lemma_later_match_contradicts(entries, token, j);
        }
    }
    lemma_last_match(written, token, i);
}

proof fn lemma_later_match_contradicts<B>(entries: Seq<(Token, B)>, token: Seq<char>, j: int)
    requires
        0 <= j < entries.len(),
        entries[j].0@ == token,
    ensures
        index_of_token(entries, token) >= j,
    decreases entries.len(),
{
    if entries.last().0@ != token {
        lemma_later_match_contradicts(entries.drop_last(), token, j);
    }
}

} // verus!
