//! Small verified text utilities shared by the query and naming helpers.
use vstd::prelude::*;
use vstd::string::*;

verus! {

/// The decimal digits of `n`, most significant first, with no leading zero
/// (the digit `0` alone for zero): what `n.to_string()` writes for an
/// unsigned integer.
pub open spec fn decimal_text(n: nat) -> Seq<char>
    decreases n,
{
    if n < 10 {
        seq![digit_char(n)]
    } else {
        decimal_text(n / 10).push(digit_char(n % 10))
    }
}

/// The ASCII digit for a value below ten.
pub open spec fn digit_char(d: nat) -> char {
    if d == 0 { '0' }
    else if d == 1 { '1' }
    else if d == 2 { '2' }
    else if d == 3 { '3' }
    else if d == 4 { '4' }
    else if d == 5 { '5' }
    else if d == 6 { '6' }
    else if d == 7 { '7' }
    else if d == 8 { '8' }
    else { '9' }
}

fn digit_str(d: u64) -> (s: &'static str)
    requires
        d < 10,
    ensures
        s@ == seq![digit_char(d as nat)],
{
    let s = if d == 0 { "0" } else if d == 1 { "1" } else if d == 2 { "2" } else if d == 3 { "3" }
        else if d == 4 { "4" } else if d == 5 { "5" } else if d == 6 { "6" } else if d == 7 { "7" }
        else if d == 8 { "8" } else { "9" };
    proof {
        reveal_strlit("0");
        reveal_strlit("1");
        reveal_strlit("2");
        reveal_strlit("3");
        reveal_strlit("4");
        reveal_strlit("5");
        reveal_strlit("6");
        reveal_strlit("7");
        reveal_strlit("8");
        reveal_strlit("9");
    }
    s
}

/// Appends the decimal text of `n` to `out`.
pub fn push_decimal(out: &mut String, n: u64)
    ensures
        final(out)@ == old(out)@ + decimal_text(n as nat),
    decreases n,
{
    if n < 10 {
        out.append(digit_str(n));
    } else {
        push_decimal(out, n / 10);
        out.append(digit_str(n % 10));
    }
}

} // verus!

verus! {

/// How many times `c` occurs in `s`.
pub open spec fn count_char(s: Seq<char>, c: char) -> nat
    decreases s.len(),
{
    if s.len() == 0 {
        0
    } else {
        count_char(s.drop_last(), c) + if s.last() == c { 1nat } else { 0nat }
    }
}

/// The text before the first `c` in `s`; all of `s` when it holds no `c`.
pub open spec fn before_first(s: Seq<char>, c: char) -> Seq<char>
    decreases s.len(),
{
    if s.len() == 0 {
        s
    } else if s.drop_last().contains(c) {
        before_first(s.drop_last(), c)
    } else if s.last() == c {
        s.drop_last()
    } else {
        s
    }
}

/// The text after the last `c` in `s`; all of `s` when it holds no `c`.
pub open spec fn after_last(s: Seq<char>, c: char) -> Seq<char>
    decreases s.len(),
{
    if s.len() == 0 {
        s
    } else if s.last() == c {
        Seq::empty()
    } else {
        after_last(s.drop_last(), c).push(s.last())
    }
}

/// The text after the first `c` in `s` (empty when `s` holds no `c`).
pub open spec fn after_first(s: Seq<char>, c: char) -> Seq<char> {
    if s.contains(c) {
        s.skip(before_first(s, c).len() as int + 1)
    } else {
        Seq::empty()
    }
}

/// Whether `t` is a suffix of `s`.
pub open spec fn has_suffix(s: Seq<char>, t: Seq<char>) -> bool {
    t.len() <= s.len() && s.skip(s.len() - t.len()) == t
}

/// Whether `t` is a prefix of `s`.
pub open spec fn has_prefix(s: Seq<char>, t: Seq<char>) -> bool {
    t.len() <= s.len() && s.take(t.len() as int) == t
}

/// `s` with every `from` replaced by `to`.
pub open spec fn replace_char(s: Seq<char>, from: char, to: char) -> Seq<char> {
    s.map_values(|x: char| if x == from { to } else { x })
}

/// What `str::to_uppercase` returns for the text `s`.
pub uninterp spec fn upper_case(s: Seq<char>) -> Seq<char>;

/// What `str::to_lowercase` returns for the text `s`.
pub uninterp spec fn lower_case(s: Seq<char>) -> Seq<char>;

/// Calls `str::to_uppercase`. Its result is named [`upper_case`]: the
/// Unicode upper-case mapping that std documents, which is not restated here.
#[verifier::external_body]
pub(crate) fn to_upper(s: &str) -> (r: String)
    ensures
        r@ == upper_case(s@),
{
    s.to_uppercase()
}

/// Calls `str::to_lowercase`. Its result is named [`lower_case`]: the
/// Unicode lower-case mapping that std documents, which is not restated here.
#[verifier::external_body]
pub(crate) fn to_lower(s: &str) -> (r: String)
    ensures
        r@ == lower_case(s@),
{
    s.to_lowercase()
}

proof fn lemma_before_first_absent(s: Seq<char>, c: char)
    requires
        !s.contains(c),
    ensures
        before_first(s, c) == s,
{
    if s.len() > 0 {
        assert(!s.drop_last().contains(c)) by {
            if s.drop_last().contains(c) {
                let k = choose|k: int| 0 <= k < s.drop_last().len() && s.drop_last()[k] == c;
                assert(s[k] == c);
            }
        }
        assert(s.last() != c) by {
            if s.last() == c {
                assert(s[s.len() - 1] == c);
            }
        }
    }
}

/// Scans `s` once for the separator `c`: how often it occurs, the text
/// before its first occurrence and the text after its last one.
pub fn scan_separator(s: &str, c: char) -> (r: (usize, String, String))
    ensures
        r.0 == count_char(s@, c),
        r.1@ == before_first(s@, c),
        r.2@ == after_last(s@, c),
{
    let n = s.unicode_len();
    let mut count: usize = 0;
    let mut before = String::new();
    let mut after = String::new();
    let mut seen = false;
    let mut i: usize = 0;
    assert(s@.take(0) =~= Seq::<char>::empty());
    while i < n
        invariant
            n == s@.len(),
            i <= n,
            count <= i,
            count == count_char(s@.take(i as int), c),
            before@ == before_first(s@.take(i as int), c),
            after@ == after_last(s@.take(i as int), c),
            seen == s@.take(i as int).contains(c),
        decreases n - i,
    {
        let ch = s.get_char(i);
        let ghost prev = s@.take(i as int);
        let ghost t = s@.take(i + 1);
        assert(t.drop_last() =~= prev);
        assert(t.last() == ch);
        let piece = s.substring_char(i, i + 1);
        assert(piece@ =~= seq![ch]);
        if ch == c {
            count = count + 1;
        }
        if !seen {
            proof {
                lemma_before_first_absent(prev, c);
            }
            if ch != c {
                before.append(piece);
                assert(before@ =~= t);
                assert(!t.contains(c)) by {
                    if t.contains(c) {
                        let k = choose|k: int| 0 <= k < t.len() && t[k] == c;
                        if k < t.len() - 1 {
                            assert(prev[k] == c);
                        }
                    }
                }
                proof {
                    lemma_before_first_absent(t, c);
                }
            }
        }
        if ch == c {
            after = String::new();
            assert(after@ =~= Seq::<char>::empty());
        } else {
            after.append(piece);
        }
        proof {
            if !seen && ch == c {
                assert(t[t.len() - 1] == c);
            }
            if seen {
                let k = choose|k: int| 0 <= k < prev.len() && prev[k] == c;
                assert(t[k] == c);
            }
        }
        seen = seen || ch == c;
        i = i + 1;
    }
    assert(s@.take(n as int) =~= s@);
    (count, before, after)
}

/// Whether two texts are equal.
pub fn text_eq(a: &str, b: &str) -> (r: bool)
    ensures
        r == (a@ == b@),
{
    let n = a.unicode_len();
    let m = b.unicode_len();
    if n != m {
        return false;
    }
    let mut i: usize = 0;
    while i < n
        invariant
            n == a@.len(),
            n == b@.len(),
            i <= n,
            forall|j: int| 0 <= j < i ==> a@[j] == b@[j],
        decreases n - i,
    {
        if a.get_char(i) != b.get_char(i) {
            return false;
        }
        i = i + 1;
    }
    assert(a@ =~= b@);
    true
}

/// Whether `t` is a suffix of `s`.
pub fn ends_with(s: &str, t: &str) -> (r: bool)
    ensures
        r == has_suffix(s@, t@),
{
    let n = s.unicode_len();
    let m = t.unicode_len();
    if m > n {
        return false;
    }
    let d = n - m;
    let mut i: usize = 0;
    while i < m
        invariant
            n == s@.len(),
            m == t@.len(),
            d == n - m,
            i <= m,
            forall|j: int| 0 <= j < i ==> s@[d + j] == t@[j],
        decreases m - i,
    {
        if s.get_char(d + i) != t.get_char(i) {
            assert(s@.skip(d as int)[i as int] != t@[i as int]);
            return false;
        }
        i = i + 1;
    }
    assert(s@.skip(d as int) =~= t@);
    true
}

/// Whether `t` is a prefix of `s`.
pub fn starts_with(s: &str, t: &str) -> (r: bool)
    ensures
        r == has_prefix(s@, t@),
{
    let n = s.unicode_len();
    let m = t.unicode_len();
    if m > n {
        return false;
    }
    let mut i: usize = 0;
    while i < m
        invariant
            n == s@.len(),
            m == t@.len(),
            i <= m,
            m <= n,
            forall|j: int| 0 <= j < i ==> s@[j] == t@[j],
        decreases m - i,
    {
        if s.get_char(i) != t.get_char(i) {
            assert(s@.take(m as int)[i as int] != t@[i as int]);
            return false;
        }
        i = i + 1;
    }
    assert(s@.take(m as int) =~= t@);
    true
}

/// `s` with every `from` replaced by `to`, where `to` is the one-character
/// text `to_text`.
pub fn replace_each(s: &str, from: char, to: char, to_text: &str) -> (r: String)
    requires
        to_text@ == seq![to],
    ensures
        r@ == replace_char(s@, from, to),
{
    let n = s.unicode_len();
    let mut out = String::new();
    let mut i: usize = 0;
    while i < n
        invariant
            n == s@.len(),
            i <= n,
            to_text@ == seq![to],
            out@ =~= replace_char(s@.take(i as int), from, to),
        decreases n - i,
    {
        let ch = s.get_char(i);
        if ch == from {
            out.append(to_text);
        } else {
            let piece = s.substring_char(i, i + 1);
            assert(piece@ =~= seq![ch]);
            out.append(piece);
        }
        assert(s@.take(i + 1) =~= s@.take(i as int).push(ch));
        i = i + 1;
    }
    assert(s@.take(n as int) =~= s@);
    out
}

} // verus!

verus! {

/// A separator occurs in `s` exactly when it is counted at least once.
pub proof fn lemma_count_positive_iff_contains(s: Seq<char>, c: char)
    ensures
        (count_char(s, c) > 0) == s.contains(c),
    decreases s.len(),
{
    if s.len() > 0 {
        lemma_count_positive_iff_contains(s.drop_last(), c);
        if s.drop_last().contains(c) {
            let k = choose|k: int| 0 <= k < s.drop_last().len() && s.drop_last()[k] == c;
            assert(s[k] == c);
        }
        if s.contains(c) && s.last() != c {
            let k = choose|k: int| 0 <= k < s.len() && s[k] == c;
            assert(k < s.len() - 1);
            assert(s.drop_last()[k] == c);
        }
        if s.last() == c {
            assert(s[s.len() - 1] == c);
        }
    }
}

/// When `c` occurs in `s`, the text before its first occurrence is a proper
/// prefix of `s` followed by `c`, and holds no `c`.
pub proof fn lemma_before_first_shape(s: Seq<char>, c: char)
    requires
        s.contains(c),
    ensures
        before_first(s, c).len() < s.len(),
        s.take(before_first(s, c).len() as int) == before_first(s, c),
        s[before_first(s, c).len() as int] == c,
        !before_first(s, c).contains(c),
    decreases s.len(),
{
    if s.drop_last().contains(c) {
        lemma_before_first_shape(s.drop_last(), c);
        let b = before_first(s.drop_last(), c);
        assert(s.take(b.len() as int) =~= s.drop_last().take(b.len() as int));
        assert(s[b.len() as int] == s.drop_last()[b.len() as int]);
    } else {
        if s.last() != c {
            let k = choose|k: int| 0 <= k < s.len() && s[k] == c;
            assert(k < s.len() - 1);
            assert(s.drop_last()[k] == c);
        }
        assert(s.take(s.len() - 1) =~= s.drop_last());
    }
}

} // verus!

verus! {

/// The length of `s` in bytes, as `str::len` reports it.
pub fn byte_len(s: &str) -> (r: usize)
    requires
        s.spec_bytes().len() <= usize::MAX,
    ensures
        r == s.spec_bytes().len(),
{
    s.len()
}

} // verus!

verus! {

/// Whether `t` occurs in `s` as a run of consecutive characters.
pub open spec fn has_infix(s: Seq<char>, t: Seq<char>) -> bool {
    exists|i: int| 0 <= i <= s.len() - t.len() && #[trigger] s.subrange(i, i + t.len()) == t
}

fn matches_at(s: &str, t: &str, at: usize) -> (r: bool)
    requires
        at + t@.len() <= s@.len(),
    ensures
        r == (s@.subrange(at as int, at + t@.len()) == t@),
{
    let n = s.unicode_len();
    let m = t.unicode_len();
    let mut j: usize = 0;
    while j < m
        invariant
            n == s@.len(),
            m == t@.len(),
            at + m <= s@.len(),
            j <= m,
            forall|k: int| 0 <= k < j ==> s@[at + k] == t@[k],
        decreases m - j,
    {
        if s.get_char(at + j) != t.get_char(j) {
            assert(s@.subrange(at as int, at + m)[j as int] != t@[j as int]);
            return false;
        }
        j = j + 1;
    }
    assert(s@.subrange(at as int, at + m) =~= t@);
    true
}

/// Whether `t` occurs in `s`, as `str::contains` with a text pattern answers.
pub fn contains_text(s: &str, t: &str) -> (r: bool)
    ensures
        r == has_infix(s@, t@),
{
    let n = s.unicode_len();
    let m = t.unicode_len();
    if m > n {
        return false;
    }
    let mut i: usize = 0;
    loop
        invariant
            n == s@.len(),
            m == t@.len(),
            m <= n,
            i <= n - m,
            forall|k: int| 0 <= k < i ==> #[trigger] s@.subrange(k, k + m) != t@,
        decreases n - m - i,
    {
        if matches_at(s, t, i) {
            return true;
        }
        if i == n - m {
            return false;
        }
        i = i + 1;
    }
}

} // verus!

verus! {

/// Whether every character of `s` is an ASCII digit.
pub open spec fn all_digits(s: Seq<char>) -> bool {
    forall|i: int| 0 <= i < s.len() ==> '0' <= #[trigger] s[i] <= '9'
}

/// The value of a run of ASCII digits, most significant first.
pub open spec fn digits_value(s: Seq<char>) -> int
    decreases s.len(),
{
    if s.len() == 0 {
        0
    } else {
        digits_value(s.drop_last()) * 10 + (s.last() as int - '0' as int)
    }
}

/// What `str::parse::<i64>` gives for `s`: an optional `+` or `-`, then one
/// or more ASCII digits whose value, with the sign, fits in `i64`; `None`
/// for any other text.
pub open spec fn decimal_i64(s: Seq<char>) -> Option<i64> {
    let negative = s.len() > 0 && s[0] == '-';
    let body = if s.len() > 0 && (s[0] == '-' || s[0] == '+') { s.skip(1) } else { s };
    let v = if negative { -digits_value(body) } else { digits_value(body) };
    if body.len() == 0 || !all_digits(body) || v < i64::MIN || v > i64::MAX {
        None
    } else {
        Some(v as i64)
    }
}

proof fn lemma_digits_value_grows(s: Seq<char>, k: int)
    requires
        all_digits(s),
        0 <= k <= s.len(),
    ensures
        digits_value(s.take(k)) <= digits_value(s),
        0 <= digits_value(s.take(k)),
    decreases s.len() - k,
{
    if k < s.len() {
        lemma_digits_value_grows(s, k + 1);
        assert(s.take(k + 1).drop_last() =~= s.take(k));
        assert(s.take(k + 1).last() == s[k]);
        lemma_digits_value_nonneg(s.take(k));
    } else {
        assert(s.take(k) =~= s);
        lemma_digits_value_nonneg(s);
    }
}

proof fn lemma_digits_value_nonneg(s: Seq<char>)
    requires
        all_digits(s),
    ensures
        0 <= digits_value(s),
    decreases s.len(),
{
    if s.len() > 0 {
        assert(all_digits(s.drop_last())) by {
            assert forall|i: int| 0 <= i < s.drop_last().len() implies '0' <= #[trigger] s.drop_last()[i] <= '9' by {
                assert(s.drop_last()[i] == s[i]);
            }
        }
        lemma_digits_value_nonneg(s.drop_last());
        assert('0' <= s[s.len() - 1] <= '9');
    }
}

/// Reads `s` as a decimal `i64` (see [`decimal_i64`]).
pub fn parse_i64(s: &str) -> (r: Option<i64>)
    ensures
        r == decimal_i64(s@),
{
    let n = s.unicode_len();
    let mut start: usize = 0;
    let mut negative = false;
    if n > 0 {
        let c = s.get_char(0);
        if c == '-' {
            negative = true;
            start = 1;
        } else if c == '+' {
            start = 1;
        }
    }
    let ghost body = s@.skip(start as int);
    proof {
        if start == 0 {
            assert(s@.skip(0) =~= s@);
        }
        assert(body == (if s@.len() > 0 && (s@[0] == '-' || s@[0] == '+') { s@.skip(1) } else { s@ }));
        assert(negative == (s@.len() > 0 && s@[0] == '-'));
    }
    if start == n {
        assert(body.len() == 0);
        return None;
    }
    let bound: i128 = if negative { 9223372036854775808 } else { 9223372036854775807 };
    let mut acc: i128 = 0;
    let mut i: usize = start;
    while i < n
        invariant
            n == s@.len(),
            start <= i <= n,
            start < n,
            body == s@.skip(start as int),
            body == (if s@.len() > 0 && (s@[0] == '-' || s@[0] == '+') { s@.skip(1) } else { s@ }),
            negative == (s@.len() > 0 && s@[0] == '-'),
            bound == (if negative { 9223372036854775808i128 } else { 9223372036854775807i128 }),
            all_digits(body.take(i - start)),
            acc == digits_value(body.take(i - start)),
            0 <= acc <= bound,
        decreases n - i,
    {
        let c = s.get_char(i);
        assert(body[i - start] == c);
        if c < '0' || c > '9' {
            assert(!all_digits(body)) by {
                assert(body[i - start] == c);
            }
            return None;
        }
        let d: i128 = (c as u32 - '0' as u32) as i128;
        let next: i128 = acc * 10 + d;
        proof {
            assert(body.take(i - start + 1).drop_last() =~= body.take(i - start));
            assert(body.take(i - start + 1).last() == c);
            assert(all_digits(body.take(i - start + 1))) by {
                assert forall|j: int| 0 <= j < body.take(i - start + 1).len() implies '0' <= #[trigger] body.take(i - start + 1)[j] <= '9' by {
                    if j < i - start {
                        assert(body.take(i - start + 1)[j] == body.take(i - start)[j]);
                    }
                }
            }
        }
        if next > bound {
            proof {
                if all_digits(body) {
                    lemma_digits_value_grows(body, i - start + 1);
                }
            }
            return None;
        }
        acc = next;
        i = i + 1;
    }
    assert(body.take(i - start) =~= body);
    if negative {
        Some((-acc) as i64)
    } else {
        Some(acc as i64)
    }
}

} // verus!

verus! {

/// The decimal text of an integer, as `to_string` writes an `i64`: a `-`
/// before the digits of a negative number.
pub open spec fn signed_decimal_text(v: int) -> Seq<char> {
    if v < 0 {
        seq!['-'] + decimal_text((-v) as nat)
    } else {
        decimal_text(v as nat)
    }
}

/// The decimal text of `v` (see [`signed_decimal_text`]).
pub fn i64_text(v: i64) -> (r: String)
    ensures
        r@ == signed_decimal_text(v as int),
{
    let mut out = String::new();
    if v < 0 {
        out.append("-");
        proof {
            reveal_strlit("-");
        }
        let magnitude: u64 = (-(v as i128)) as u64;
        push_decimal(&mut out, magnitude);
    } else {
        push_decimal(&mut out, v as u64);
    }
    assert(out@ =~= signed_decimal_text(v as int));
    out
}

/// The decimal text of a number is a non-empty run of digits whose value
/// is the number.
pub proof fn lemma_decimal_text_digits(n: nat)
    ensures
        decimal_text(n).len() > 0,
        all_digits(decimal_text(n)),
        digits_value(decimal_text(n)) == n,
    decreases n,
{
    let t = decimal_text(n);
    if n < 10 {
        assert(t.drop_last() =~= Seq::<char>::empty());
        assert(t.last() == digit_char(n));
        assert(digit_char(n) as int - '0' as int == n);
        assert(digits_value(t) == digits_value(t.drop_last()) * 10 + (t.last() as int - '0' as int));
        assert(digits_value(t.drop_last()) == 0);
    } else {
        lemma_decimal_text_digits(n / 10);
        let d = (n % 10) as nat;
        assert(t.drop_last() =~= decimal_text(n / 10));
        assert(t.last() == digit_char(d));
        assert(digit_char(d) as int - '0' as int == d);
        assert(digits_value(t) == digits_value(t.drop_last()) * 10 + (t.last() as int - '0' as int));
        assert((n / 10) * 10 + n % 10 == n) by (nonlinear_arith);
        assert(digits_value(t.drop_last()) == n / 10);
        assert forall|i: int| 0 <= i < t.len() implies '0' <= #[trigger] t[i] <= '9' by {
            if i < t.len() - 1 {
                assert(t[i] == decimal_text(n / 10)[i]);
            }
        }
    }
}

/// A number written by [`i64_text`] reads back as the same number (see
/// [`decimal_i64`]): `to_string` and `parse` undo each other on `i64`.
pub proof fn lemma_i64_text_reads_back(v: i64)
    ensures
        decimal_i64(signed_decimal_text(v as int)) == Some(v),
{
    let s = signed_decimal_text(v as int);
    if v < 0 {
        let m = (-(v as int)) as nat;
        lemma_decimal_text_digits(m);
        assert(s[0] == '-');
        assert(s.skip(1) =~= decimal_text(m));
    } else {
        lemma_decimal_text_digits(v as nat);
        assert('0' <= s[0] <= '9');
    }
}

} // verus!
