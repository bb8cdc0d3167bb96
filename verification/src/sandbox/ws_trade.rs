//! Splitting exchange symbols such as `BTCUSDT` into base and quote.
use vstd::prelude::*;
use vstd::string::*;
use crate::text::{ends_with, has_suffix};

verus! {

/// The quote currencies that a symbol may end with, in the order in which
/// they are tried.
pub open spec fn quote_assets() -> Seq<Seq<char>> {
    seq![
        "USDT"@, "USTC"@, "USDC"@, "USD"@, "UST"@, "DAI"@, "FDUSD"@, "BTC"@, "ETH"@, "EURT"@,
    ]
}

/// The split of `symbol` when the quote currencies from position `i` on are
/// tried in order: the first one that ends the symbol becomes the quote and the
/// rest of the symbol the base; when none does, the whole symbol is the base
/// and the quote is empty.
pub open spec fn split_from(symbol: Seq<char>, i: int) -> (Seq<char>, Seq<char>)
    decreases 10 - i,
{
    if i < 0 || i >= 10 {
        (symbol, Seq::empty())
    } else if has_suffix(symbol, quote_assets()[i]) {
        (symbol.take(symbol.len() - quote_assets()[i].len()), quote_assets()[i])
    } else {
        split_from(symbol, i + 1)
    }
}

/// The base and quote of a symbol, trying every known quote currency in order.
pub open spec fn base_and_quote(symbol: Seq<char>) -> (Seq<char>, Seq<char>) {
    split_from(symbol, 0)
}

fn quote_asset(i: usize) -> (r: &'static str)
    requires
        i < 10,
    ensures
        r@ == quote_assets()[i as int],
{
    if i == 0 { "USDT" } else if i == 1 { "USTC" } else if i == 2 { "USDC" } else if i == 3 { "USD" }
    else if i == 4 { "UST" } else if i == 5 { "DAI" } else if i == 6 { "FDUSD" } else if i == 7 { "BTC" }
    else if i == 8 { "ETH" } else { "EURT" }
}

/// Splits a symbol into base and quote (see [`base_and_quote`]).
pub fn parse_base_and_quote(symbol: &str) -> (r: (String, String))
    ensures
        (r.0@, r.1@) == base_and_quote(symbol@),
{
    let mut i: usize = 0;
    while i < 10
        invariant
            i <= 10,
            split_from(symbol@, 0) == split_from(symbol@, i as int),
        decreases 10 - i,
    {
        let quote = quote_asset(i);
        if ends_with(symbol, quote) {
            let n = symbol.unicode_len();
            let m = quote.unicode_len();
            let base = symbol.substring_char(0, n - m);
            assert(base@ =~= symbol@.take(symbol@.len() - quote@.len()));
            return (base.to_string(), quote.to_string());
        }
        i = i + 1;
    }
    (symbol.to_string(), String::new())
}

} // verus!

verus! {

/// Splitting a symbol loses nothing: the base followed by the quote is the
/// symbol again, and the quote is empty or one of the known quote currencies.
pub proof fn lemma_split_reassembles(symbol: Seq<char>)
    ensures
        base_and_quote(symbol).0 + base_and_quote(symbol).1 == symbol,
        base_and_quote(symbol).1.len() == 0 || quote_assets().contains(base_and_quote(symbol).1),
{
    lemma_split_from_reassembles(symbol, 0);
}

proof fn lemma_split_from_reassembles(symbol: Seq<char>, i: int)
    requires
        0 <= i <= 10,
    ensures
        split_from(symbol, i).0 + split_from(symbol, i).1 == symbol,
        split_from(symbol, i).1.len() == 0 || quote_assets().contains(split_from(symbol, i).1),
    decreases 10 - i,
{
    if i < 10 {
        let q = quote_assets()[i];
        if has_suffix(symbol, q) {
            assert(symbol.take(symbol.len() - q.len()) + q =~= symbol);
            assert(quote_assets()[i] == q);
        } else {
            lemma_split_from_reassembles(symbol, i + 1);
        }
    } else {
        assert(symbol + Seq::<char>::empty() =~= symbol);
    }
}

/// The quote of a symbol is the first of USDT, USTC, USDC, USD, UST, DAI,
/// FDUSD, BTC, ETH and EURT, in that order, that ends the symbol, and the
/// base is what comes before it; a symbol that none of them ends is left
/// whole, with an empty quote. So a symbol that ends with a known quote
/// currency is always split.
pub proof fn lemma_quote_is_first_known_suffix(symbol: Seq<char>)
    ensures
        ({
            let known = seq![
                "USDT"@, "USTC"@, "USDC"@, "USD"@, "UST"@, "DAI"@, "FDUSD"@, "BTC"@, "ETH"@, "EURT"@,
            ];
            &&& forall|j: int|
                0 <= j < 10 && #[trigger] has_suffix(symbol, known[j]) && (forall|k: int|
                    0 <= k < j ==> !has_suffix(symbol, known[k])) ==> base_and_quote(symbol) == (
                    symbol.take(symbol.len() - known[j].len()),
                    known[j],
                )
            &&& (forall|j: int| 0 <= j < 10 ==> !has_suffix(symbol, #[trigger] known[j])) ==> base_and_quote(symbol) == (
                symbol,
                Seq::<char>::empty(),
            )
            &&& (exists|j: int| 0 <= j < 10 && #[trigger] has_suffix(symbol, known[j])) ==> base_and_quote(symbol).1.len()
                > 0
        }),
{
    let known = seq!["USDT"@, "USTC"@, "USDC"@, "USD"@, "UST"@, "DAI"@, "FDUSD"@, "BTC"@, "ETH"@, "EURT"@];
    assert(quote_assets() =~= known);
    assert forall|j: int|
        0 <= j < 10 && #[trigger] has_suffix(symbol, known[j]) && (forall|k: int|
            0 <= k < j ==> !has_suffix(symbol, known[k])) implies base_and_quote(symbol) == (
        symbol.take(symbol.len() - known[j].len()),
        known[j],
    ) by {
        lemma_split_from_first(symbol, 0, j);
    }
    if forall|j: int| 0 <= j < 10 ==> !has_suffix(symbol, #[trigger] known[j]) {
        lemma_split_from_none(symbol, 0);
    }
    if exists|j: int| 0 <= j < 10 && #[trigger] has_suffix(symbol, known[j]) {
        let j0 = choose|j: int| 0 <= j < 10 && #[trigger] has_suffix(symbol, known[j]);
        lemma_first_suffix_exists(symbol, j0);
    }
}

proof fn lemma_split_from_first(symbol: Seq<char>, i: int, j: int)
    requires
        0 <= i <= j < 10,
        has_suffix(symbol, quote_assets()[j]),
        forall|k: int| i <= k < j ==> !has_suffix(symbol, #[trigger] quote_assets()[k]),
    ensures
        split_from(symbol, i) == (symbol.take(symbol.len() - quote_assets()[j].len()), quote_assets()[j]),
    decreases j - i,
{
    if i < j {
        assert(!has_suffix(symbol, quote_assets()[i]));
        lemma_split_from_first(symbol, i + 1, j);
    }
}

proof fn lemma_split_from_none(symbol: Seq<char>, i: int)
    requires
        0 <= i <= 10,
        forall|k: int| i <= k < 10 ==> !has_suffix(symbol, #[trigger] quote_assets()[k]),
    ensures
        split_from(symbol, i) == (symbol, Seq::<char>::empty()),
    decreases 10 - i,
{
    if i < 10 {
        assert(!has_suffix(symbol, quote_assets()[i]));
        lemma_split_from_none(symbol, i + 1);
    }
}

proof fn lemma_first_suffix_exists(symbol: Seq<char>, j0: int)
    requires
        0 <= j0 < 10,
        has_suffix(symbol, quote_assets()[j0]),
    ensures
        base_and_quote(symbol).1.len() > 0,
    decreases j0,
{
    if exists|k: int| 0 <= k < j0 && #[trigger] has_suffix(symbol, quote_assets()[k]) {
        let k = choose|k: int| 0 <= k < j0 && #[trigger] has_suffix(symbol, quote_assets()[k]);
        lemma_first_suffix_exists(symbol, k);
    } else {
        lemma_split_from_first(symbol, 0, j0);
        lemma_quotes_not_empty();
    }
}

proof fn lemma_quotes_not_empty()
    ensures
        forall|k: int| 0 <= k < 10 ==> (#[trigger] quote_assets()[k]).len() > 0,
{
    reveal_strlit("USDT");
    reveal_strlit("USTC");
    reveal_strlit("USDC");
    reveal_strlit("USD");
    reveal_strlit("UST");
    reveal_strlit("DAI");
    reveal_strlit("FDUSD");
    reveal_strlit("BTC");
    reveal_strlit("ETH");
    reveal_strlit("EURT");
    assert forall|k: int| 0 <= k < 10 implies (#[trigger] quote_assets()[k]).len() > 0 by {
        if k == 0 {
            assert(quote_assets()[k] == "USDT"@);
        } else if k == 1 {
            assert(quote_assets()[k] == "USTC"@);
        } else if k == 2 {
            assert(quote_assets()[k] == "USDC"@);
        } else if k == 3 {
            assert(quote_assets()[k] == "USD"@);
        } else if k == 4 {
            assert(quote_assets()[k] == "UST"@);
        } else if k == 5 {
            assert(quote_assets()[k] == "DAI"@);
        } else if k == 6 {
            assert(quote_assets()[k] == "FDUSD"@);
        } else if k == 7 {
            assert(quote_assets()[k] == "BTC"@);
        } else if k == 8 {
            assert(quote_assets()[k] == "ETH"@);
        } else {
            assert(quote_assets()[k] == "EURT"@);
        }
    }
}

} // verus!
