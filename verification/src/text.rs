//! Text as a sequence of characters: comparing, searching, splitting and writing numbers.
//!
//! The spec functions here are the vocabulary of every contract in the crate that
//! speaks of text.

use vstd::prelude::*;

verus! {

/// Where the first character of `s` that is `a` or `b` stands, or the length of `s`
/// where neither occurs.
pub open spec fn first_of(s: Seq<char>, a: char, b: char) -> int
    decreases s.len(),
{
    if s.len() == 0 || s[0] == a || s[0] == b {
        0
    } else {
        1 + first_of(s.drop_first(), a, b)
    }
}

/// Where `pat` first occurs in `s`.
pub open spec fn find_text(s: Seq<char>, pat: Seq<char>) -> Option<int>
    decreases s.len(),
{
    if pat.is_prefix_of(s) {
        Some(0)
    } else if s.len() == 0 {
        None
    } else {
        match find_text(s.drop_first(), pat) {
            Some(k) => Some(k + 1),
            None => None,
        }
    }
}

/// What follows the first occurrence of `pat` in `s`.
pub open spec fn after_first(s: Seq<char>, pat: Seq<char>) -> Option<Seq<char>> {
    match find_text(s, pat) {
        Some(k) => Some(s.skip(k + pat.len())),
        None => None,
    }
}

/// What follows the last `c` in `s`.
pub open spec fn after_last(s: Seq<char>, c: char) -> Option<Seq<char>>
    decreases s.len(),
{
    if s.len() == 0 {
        None
    } else if s.last() == c {
        Some(Seq::empty())
    } else {
        match after_last(s.drop_last(), c) {
            Some(tail) => Some(tail.push(s.last())),
            None => None,
        }
    }
}

/// The parts of `s` between the occurrences of `c`; one part where there is none.
pub open spec fn split_on(s: Seq<char>, c: char) -> Seq<Seq<char>>
    decreases s.len(),
{
    let k = first_of(s, c, c);
    if 0 <= k < s.len() {
        seq![s.take(k)] + split_on(s.skip(k + 1), c)
    } else {
        seq![s]
    }
}

/// The texts of `list`, with `sep` between each two of them.
pub open spec fn joined(list: Seq<Seq<char>>, sep: Seq<char>) -> Seq<char>
    decreases list.len(),
{
    if list.len() == 0 {
        Seq::empty()
    } else if list.len() == 1 {
        list[0]
    } else {
        joined(list.drop_last(), sep) + sep + list.last()
    }
}

/// Whether `c` is a decimal digit.
pub open spec fn is_digit(c: char) -> bool {
    '0' <= c <= '9'
}

/// The decimal digit that stands for `n`.
pub open spec fn digit(n: nat) -> char
    recommends
        n < 10,
{
    ('0' as nat + n) as char
}

/// `n` in decimal, without leading zeros.
pub open spec fn decimal(n: nat) -> Seq<char>
    decreases n,
{
    if n < 10 {
        seq![digit(n)]
    } else {
        decimal(n / 10).push(digit(n % 10))
    }
}

/// The number that the digits of `s` write.
pub open spec fn decimal_value(s: Seq<char>) -> int
    decreases s.len(),
{
    if s.len() == 0 {
        0
    } else {
        10 * decimal_value(s.drop_last()) + (s.last() as int - '0' as int)
    }
}

/// The characters of `s`, in order.
pub(crate) fn to_chars(s: &str) -> (chars: Vec<char>)
    ensures
        chars@ == s@,
{
    let mut chars: Vec<char> = Vec::new();
    for c in it: s.chars()
        invariant
            chars@ == it.seq().take(it.index()),
            it.seq() == s@,
    {
        chars.push(c);
    }
    assert(s@.take(s@.len() as int) =~= s@);
    chars
}

/// Whether `a` and `b` are the same text.
pub(crate) fn same_text(a: &str, b: &str) -> (same: bool)
    ensures
        same == (a@ == b@),
{
    let x = to_chars(a);
    let y = to_chars(b);
    if x.len() != y.len() {
        return false;
    }
    let n = x.len();
    for i in 0..n
        invariant
            n == x.len() == y.len(),
            x@ == a@,
            y@ == b@,
            forall|j: int| 0 <= j < i ==> x[j] == y[j],
    {
        if x[i] != y[i] {
            assert(a@[i as int] != b@[i as int]);
            return false;
        }
    }
    assert(a@ =~= b@);
    true
}

/// Where the first `a` or `b` stands at or after `from`.
pub(crate) fn seek(chars: &Vec<char>, from: usize, a: char, b: char) -> (at: usize)
    requires
        from <= chars@.len(),
    ensures
        at == from + first_of(chars@.skip(from as int), a, b),
        from <= at <= chars@.len(),
{
    let mut at: usize = from;
    while at < chars.len() && chars[at] != a && chars[at] != b
        invariant
            from <= at <= chars@.len(),
            forall|i: int| from <= i < at ==> chars@[i] != a && chars@[i] != b,
        decreases chars@.len() - at,
    {
        at = at + 1;
    }
    proof {
        let rest = chars@.skip(from as int);
        assert forall|i: int| 0 <= i < at - from implies rest[i] != a && rest[i] != b by {
            assert(rest[i] == chars@[from + i]);
        }
        lemma_first_of_is(rest, a, b, at - from);
    }
    at
}

/// Where `pat` first occurs in `chars`.
pub(crate) fn locate(chars: &Vec<char>, pat: &Vec<char>) -> (at: Option<usize>)
    requires
        pat@.len() > 0,
    ensures
        at matches Some(k) ==> find_text(chars@, pat@) == Some(k as int) && k + pat@.len()
            <= chars@.len(),
        at is None ==> find_text(chars@, pat@) is None,
{
    let n = chars.len();
    let m = pat.len();
    let mut i: usize = 0;
    while m <= n - i
        invariant
            n == chars@.len(),
            0 < m == pat@.len(),
            i <= n,
            forall|j: int| 0 <= j < i ==> !pat@.is_prefix_of(#[trigger] chars@.skip(j)),
        decreases n - i,
    {
        let mut k: usize = 0;
        while k < m && chars[i + k] == pat[k]
            invariant
                n == chars@.len(),
                m == pat@.len(),
                k <= m,
                i + m <= n,
                forall|j: int| 0 <= j < k ==> chars@[i + j] == pat@[j],
            decreases m - k,
        {
            k = k + 1;
        }
        let ghost rest = chars@.skip(i as int);
        if k == m {
            proof {
                assert(pat@ =~= rest.subrange(0, m as int));
                lemma_find_text_is(chars@, pat@, i as int);
            }
            return Some(i);
        }
        assert(!pat@.is_prefix_of(rest)) by {
            assert(rest[k as int] != pat@[k as int]);
            if pat@.is_prefix_of(rest) {
                assert(rest.subrange(0, m as int)[k as int] == pat@[k as int]);
            }
        }
        i = i + 1;
    }
    proof {
        lemma_find_text(chars@, pat@);
        if let Some(f) = find_text(chars@, pat@) {
            assert(pat@.is_prefix_of(chars@.skip(f)));
        }
    }
    None
}

/// The text of the decimal digit `n`.
fn digit_text(n: u64) -> (text: &'static str)
    requires
        n < 10,
    ensures
        text@ == seq![digit(n as nat)],
{
    proof {
        reveal_strlit("0");
        reveal_strlit("1");
        reveal_strlit("2");
        reveal_strlit("3");
        reveal_strlit("4");
        reveal_strlit("5");
        reveal_strlit("6");
        reveal_strlit("7");
        reveal_strlit("8");
        reveal_strlit("9");
    }
    match n {
        0 => "0",
        1 => "1",
        2 => "2",
        3 => "3",
        4 => "4",
        5 => "5",
        6 => "6",
        7 => "7",
        8 => "8",
        _ => "9",
    }
}

/// `n` in decimal.
pub(crate) fn decimal_text(n: u64) -> (text: String)
    ensures
        text@ == decimal(n as nat),
    decreases n,
{
    if n < 10 {
        digit_text(n).to_owned()
    } else {
        let mut text = decimal_text(n / 10);
        text.append(digit_text(n % 10));
        assert(text@ =~= decimal(n as nat));
        text
    }
}

/// The four texts one after the other.
pub(crate) fn concat4(a: &str, b: &str, c: &str, d: &str) -> (text: String)
    ensures
        text@ == a@ + b@ + c@ + d@,
{
    let mut text = a.to_owned();
    text.append(b);
    text.append(c);
    text.append(d);
    text
}

/// A decimal number is not empty, is made of digits, and reads back as the number.
pub proof fn lemma_decimal(n: nat)
    ensures
        decimal(n).len() > 0,
        forall|i: int| 0 <= i < decimal(n).len() ==> is_digit(#[trigger] decimal(n)[i]),
        decimal_value(decimal(n)) == n,
    decreases n,
{
    if n < 10 {
        let s = decimal(n);
        assert(s.drop_last() =~= Seq::<char>::empty());
        assert(decimal_value(s.drop_last()) == 0);
    } else {
        lemma_decimal(n / 10);
        let s = decimal(n);
        assert(s.drop_last() =~= decimal(n / 10));
    }
}

/// `first_of` lies in `s`, finds one of the two characters, and passes over none.
pub proof fn lemma_first_of(s: Seq<char>, a: char, b: char)
    ensures
        0 <= first_of(s, a, b) <= s.len(),
        first_of(s, a, b) < s.len() ==> (s[first_of(s, a, b)] == a || s[first_of(s, a, b)] == b),
        forall|i: int| 0 <= i < first_of(s, a, b) ==> s[i] != a && s[i] != b,
    decreases s.len(),
{
    if s.len() == 0 || s[0] == a || s[0] == b {
    } else {
        let t = s.drop_first();
        lemma_first_of(t, a, b);
        assert forall|i: int| 0 <= i < first_of(s, a, b) implies s[i] != a && s[i] != b by {
            if i > 0 {
                assert(s[i] == t[i - 1]);
            }
        }
    }
}

/// A position with the properties of `first_of` is `first_of`.
pub proof fn lemma_first_of_is(s: Seq<char>, a: char, b: char, k: int)
    requires
        0 <= k <= s.len(),
        k < s.len() ==> (s[k] == a || s[k] == b),
        forall|i: int| 0 <= i < k ==> s[i] != a && s[i] != b,
    ensures
        first_of(s, a, b) == k,
{
    lemma_first_of(s, a, b);
    let f = first_of(s, a, b);
    if f < k {
        assert(s[f] != a && s[f] != b);
    } else if k < f {
        assert(s[k] != a && s[k] != b);
    }
}

/// `find_text` finds an occurrence, and there is none before it.
pub proof fn lemma_find_text(s: Seq<char>, pat: Seq<char>)
    ensures
        find_text(s, pat) matches Some(k) ==> 0 <= k && k + pat.len() <= s.len()
            && pat.is_prefix_of(s.skip(k)),
        forall|i: int|
            0 <= i <= s.len() && pat.is_prefix_of(#[trigger] s.skip(i)) ==> (find_text(
                s,
                pat,
            ) matches Some(k) && k <= i),
    decreases s.len(),
{
    assert(s.skip(0) =~= s);
    if pat.is_prefix_of(s) {
    } else if s.len() == 0 {
        assert forall|i: int| 0 <= i <= s.len() && pat.is_prefix_of(#[trigger] s.skip(i)) implies (
        find_text(s, pat) matches Some(k) && k <= i) by {
            assert(s.skip(i) =~= s);
        }
    } else {
        let t = s.drop_first();
        lemma_find_text(t, pat);
        if let Some(k) = find_text(t, pat) {
            assert(t.skip(k) =~= s.skip(k + 1));
        }
        assert forall|i: int| 0 <= i <= s.len() && pat.is_prefix_of(#[trigger] s.skip(i)) implies (
        find_text(s, pat) matches Some(k) && k <= i) by {
            if i == 0 {
            } else {
                assert(s.skip(i) =~= t.skip(i - 1));
            }
        }
    }
}

/// An occurrence of `pat` with none before it is where `find_text` stands.
pub proof fn lemma_find_text_is(s: Seq<char>, pat: Seq<char>, k: int)
    requires
        0 <= k <= s.len(),
        pat.is_prefix_of(s.skip(k)),
        forall|i: int| 0 <= i < k ==> !pat.is_prefix_of(#[trigger] s.skip(i)),
    ensures
        find_text(s, pat) == Some(k),
{
    lemma_find_text(s, pat);
    let f = find_text(s, pat)->0;
    assert(f <= k);
    if f < k {
        assert(pat.is_prefix_of(s.skip(f)));
    }
}

} // verus!
