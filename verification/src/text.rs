//! Character and string primitives shared by the rest of the library,
//! each specified over `Seq<char>`.

use vstd::prelude::*;

verus! {

/// The Unicode `White_Space` property, the set that `char::is_whitespace`
/// and `str::trim` use.
pub open spec fn is_white_space(c: char) -> bool {
    ||| ('\u{9}' <= c && c <= '\u{d}')
    ||| c == ' '
    ||| c == '\u{85}'
    ||| c == '\u{a0}'
    ||| c == '\u{1680}'
    ||| ('\u{2000}' <= c && c <= '\u{200a}')
    ||| c == '\u{2028}'
    ||| c == '\u{2029}'
    ||| c == '\u{202f}'
    ||| c == '\u{205f}'
    ||| c == '\u{3000}'
}

/// Whether `c` has the Unicode `White_Space` property.
pub fn is_whitespace(c: char) -> (r: bool)
    ensures
        r == is_white_space(c),
{
    ('\u{9}' <= c && c <= '\u{d}') || c == ' ' || c == '\u{85}' || c == '\u{a0}'
        || c == '\u{1680}' || ('\u{2000}' <= c && c <= '\u{200a}') || c == '\u{2028}'
        || c == '\u{2029}' || c == '\u{202f}' || c == '\u{205f}' || c == '\u{3000}'
}


/// The characters that `trim_matching` strips: white space, and with
/// `quotes` also `"` and `'`.
pub open spec fn is_trimmed(c: char, quotes: bool) -> bool {
    is_white_space(c) || (quotes && (c == '"' || c == '\''))
}

/// `s` without its leading trimmed characters.
pub open spec fn trim_start_seq(s: Seq<char>, quotes: bool) -> Seq<char>
    decreases s.len(),
{
    if s.len() > 0 && is_trimmed(s[0], quotes) {
        trim_start_seq(s.drop_first(), quotes)
    } else {
        s
    }
}

/// `s` without its trailing trimmed characters.
pub open spec fn trim_end_seq(s: Seq<char>, quotes: bool) -> Seq<char>
    decreases s.len(),
{
    if s.len() > 0 && is_trimmed(s.last(), quotes) {
        trim_end_seq(s.drop_last(), quotes)
    } else {
        s
    }
}

/// `s` without its leading and trailing trimmed characters.
pub open spec fn trim_seq(s: Seq<char>, quotes: bool) -> Seq<char> {
    trim_end_seq(trim_start_seq(s, quotes), quotes)
}

/// `p` is a prefix of `s`.
pub open spec fn has_prefix(s: Seq<char>, p: Seq<char>) -> bool {
    p.len() <= s.len() && s.subrange(0, p.len() as int) == p
}

proof fn lemma_trim_start_shape(s: Seq<char>, quotes: bool)
    ensures
        exists|i: int|
            #![trigger s.subrange(i, s.len() as int)]
            0 <= i <= s.len() && trim_start_seq(s, quotes) == s.subrange(i, s.len() as int)
                && (forall|k: int| 0 <= k < i ==> is_trimmed(#[trigger] s[k], quotes)) && (i
                < s.len() ==> !is_trimmed(s[i], quotes)),
    decreases s.len(),
{
    if s.len() > 0 && is_trimmed(s[0], quotes) {
        let t = s.drop_first();
        lemma_trim_start_shape(t, quotes);
        let i = choose|i: int|
            #![trigger t.subrange(i, t.len() as int)]
            0 <= i <= t.len() && trim_start_seq(t, quotes) == t.subrange(i, t.len() as int)
                && (forall|k: int| 0 <= k < i ==> is_trimmed(#[trigger] t[k], quotes)) && (i
                < t.len() ==> !is_trimmed(t[i], quotes));
        assert(t.subrange(i, t.len() as int) =~= s.subrange(i + 1, s.len() as int));
        assert forall|k: int| 0 <= k < i + 1 implies is_trimmed(#[trigger] s[k], quotes) by {
            if k > 0 {
                assert(s[k] == t[k - 1]);
            }
        }
        assert(i + 1 < s.len() ==> s[i + 1] == t[i]);
    } else {
        assert(s.subrange(0, s.len() as int) =~= s);
    }
}

proof fn lemma_trim_end_shape(s: Seq<char>, quotes: bool)
    ensures
        exists|j: int|
            #![trigger s.subrange(0, j)]
            0 <= j <= s.len() && trim_end_seq(s, quotes) == s.subrange(0, j) && (forall|k: int|
                j <= k < s.len() ==> is_trimmed(#[trigger] s[k], quotes)) && (j > 0
                ==> !is_trimmed(s[j - 1], quotes)),
    decreases s.len(),
{
    if s.len() > 0 && is_trimmed(s.last(), quotes) {
        let t = s.drop_last();
        lemma_trim_end_shape(t, quotes);
        let j = choose|j: int|
            #![trigger t.subrange(0, j)]
            0 <= j <= t.len() && trim_end_seq(t, quotes) == t.subrange(0, j) && (forall|k: int|
                j <= k < t.len() ==> is_trimmed(#[trigger] t[k], quotes)) && (j > 0
                ==> !is_trimmed(t[j - 1], quotes));
        assert(t.subrange(0, j) =~= s.subrange(0, j));
        assert forall|k: int| j <= k < s.len() implies is_trimmed(#[trigger] s[k], quotes) by {
            if k < s.len() - 1 {
                assert(s[k] == t[k]);
            }
        }
        assert(j > 0 ==> s[j - 1] == t[j - 1]);
    } else {
        assert(s.subrange(0, s.len() as int) =~= s);
    }
}

/// Trimming removes exactly the white space (and with `quotes` the `"` and
/// `'`) at both ends: the result is the stretch of `s` between a run of such
/// characters at its start and a run at its end, and it neither starts nor
/// ends with one.
pub proof fn lemma_trim_removes_only_the_ends(s: Seq<char>, quotes: bool)
    ensures
        exists|i: int, j: int|
            #![trigger s.subrange(i, j)]
            0 <= i <= j <= s.len() && trim_seq(s, quotes) == s.subrange(i, j) && (forall|k: int|
                0 <= k < i ==> is_white_space(#[trigger] s[k]) || (quotes && (s[k] == '"' || s[k]
                    == '\''))) && (forall|k: int|
                j <= k < s.len() ==> is_white_space(#[trigger] s[k]) || (quotes && (s[k] == '"'
                    || s[k] == '\''))) && (i < j ==> !is_white_space(s[i]) && !(quotes && (s[i]
                == '"' || s[i] == '\''))) && (i < j ==> !is_white_space(s[j - 1]) && !(quotes && (
            s[j - 1] == '"' || s[j - 1] == '\''))),
{
    lemma_trim_start_shape(s, quotes);
    let i = choose|i: int|
        #![trigger s.subrange(i, s.len() as int)]
        0 <= i <= s.len() && trim_start_seq(s, quotes) == s.subrange(i, s.len() as int) && (
        forall|k: int| 0 <= k < i ==> is_trimmed(#[trigger] s[k], quotes)) && (i < s.len()
            ==> !is_trimmed(s[i], quotes));
    let t = s.subrange(i, s.len() as int);
    lemma_trim_end_shape(t, quotes);
    let j = choose|j: int|
        #![trigger t.subrange(0, j)]
        0 <= j <= t.len() && trim_end_seq(t, quotes) == t.subrange(0, j) && (forall|k: int|
            j <= k < t.len() ==> is_trimmed(#[trigger] t[k], quotes)) && (j > 0 ==> !is_trimmed(
            t[j - 1],
            quotes,
        ));
    assert(t.subrange(0, j) =~= s.subrange(i, i + j));
    assert forall|k: int| i + j <= k < s.len() implies is_white_space(#[trigger] s[k]) || (quotes
        && (s[k] == '"' || s[k] == '\'')) by {
        assert(s[k] == t[k - i]);
    }
    if j > 0 {
        assert(s[i] == t[0]);
        assert(s[i + j - 1] == t[j - 1]);
    }
    assert(s.subrange(i, i + j) == trim_seq(s, quotes));
}

/// A sequence starts with each of its prefixes.
pub proof fn lemma_prefix_of_concat(p: Seq<char>, t: Seq<char>)
    ensures
        has_prefix(p + t, p),
{
    assert((p + t).subrange(0, p.len() as int) =~= p);
}

/// `p` occurs in `s` starting at index `i`.
pub open spec fn occurs_at(s: Seq<char>, p: Seq<char>, i: int) -> bool {
    0 <= i && i + p.len() <= s.len() && s.subrange(i, i + p.len()) == p
}

/// `p` occurs somewhere in `s` (the empty pattern occurs in every string).
pub open spec fn has_infix(s: Seq<char>, p: Seq<char>) -> bool {
    exists|i: int| occurs_at(s, p, i)
}

/// Index of the first occurrence of `c` in `s`, or `s.len()` when there is none.
pub open spec fn first_index_of(s: Seq<char>, c: char) -> int
    decreases s.len(),
{
    if s.len() == 0 {
        0
    } else if s[0] == c {
        0
    } else {
        1 + first_index_of(s.drop_first(), c)
    }
}

/// The part of `s` before the first `c`, all of `s` when it holds no `c`:
/// what `s.split(c).next()` yields.
pub open spec fn before_first(s: Seq<char>, c: char) -> Seq<char> {
    s.subrange(0, first_index_of(s, c))
}

pub proof fn lemma_first_index_of(s: Seq<char>, c: char)
    ensures
        0 <= first_index_of(s, c) <= s.len(),
        forall|k: int| 0 <= k < first_index_of(s, c) ==> s[k] != c,
        first_index_of(s, c) < s.len() ==> s[first_index_of(s, c)] == c,
    decreases s.len(),
{
    if s.len() > 0 && s[0] != c {
        lemma_first_index_of(s.drop_first(), c);
        assert forall|k: int| 0 <= k < first_index_of(s, c) implies s[k] != c by {
            if k > 0 {
                assert(s[k] == s.drop_first()[k - 1]);
            }
        }
    }
}

/// The characters of `s`, one per element.
pub fn chars_of(s: &str) -> (v: Vec<char>)
    ensures
        v@ == s@,
{
    let n = s.unicode_len();
    let mut v: Vec<char> = Vec::new();
    let mut i: usize = 0;
    while i < n
        invariant
            n == s@.len(),
            i <= n,
            v@ == s@.subrange(0, i as int),
        decreases n - i,
    {
        v.push(s.get_char(i));
        i += 1;
    }
    v
}

/// Whether `c` is stripped by `trim_matching`.
pub fn is_trimmed_char(c: char, quotes: bool) -> (r: bool)
    ensures
        r == is_trimmed(c, quotes),
{
    is_whitespace(c) || (quotes && (c == '"' || c == '\''))
}

/// `s` without its leading white space, and with `quotes` also without its
/// leading `"` and `'`.
pub fn trim_start_matching(s: &str, quotes: bool) -> (r: &str)
    ensures
        r@ == trim_start_seq(s@, quotes),
{
    let cs = chars_of(s);
    let n = cs.len();
    let mut i: usize = 0;
    assert(s@.subrange(0, n as int) =~= s@);
    while i < n && is_trimmed_char(cs[i], quotes)
        invariant
            n == s@.len(),
            cs@ == s@,
            i <= n,
            trim_start_seq(s@, quotes) == trim_start_seq(s@.subrange(i as int, n as int), quotes),
        decreases n - i,
    {
        assert(s@.subrange(i as int, n as int).drop_first() =~= s@.subrange(i + 1, n as int));
        i += 1;
    }
    s.substring_char(i, n)
}

/// `s` without its trailing white space, and with `quotes` also without its
/// trailing `"` and `'`.
pub fn trim_end_matching(s: &str, quotes: bool) -> (r: &str)
    ensures
        r@ == trim_end_seq(s@, quotes),
{
    let cs = chars_of(s);
    let n = cs.len();
    let mut j: usize = n;
    assert(s@.subrange(0, n as int) =~= s@);
    while j > 0 && is_trimmed_char(cs[j - 1], quotes)
        invariant
            n == s@.len(),
            cs@ == s@,
            j <= n,
            trim_end_seq(s@, quotes) == trim_end_seq(s@.subrange(0, j as int), quotes),
        decreases j,
    {
        assert(s@.subrange(0, j as int).drop_last() =~= s@.subrange(0, j - 1));
        j -= 1;
    }
    s.substring_char(0, j)
}

/// `s` without leading and trailing white space, and with `quotes` also
/// without leading and trailing `"` and `'`.
pub fn trim_matching(s: &str, quotes: bool) -> (r: &str)
    ensures
        r@ == trim_seq(s@, quotes),
{
    trim_end_matching(trim_start_matching(s, quotes), quotes)
}

/// The part of `s` before the first `c`, all of `s` when it holds no `c`.
pub fn prefix_before(s: &str, c: char) -> (r: &str)
    ensures
        r@ == before_first(s@, c),
{
    let cs = chars_of(s);
    let n = cs.len();
    let mut i: usize = 0;
    while i < n && cs[i] != c
        invariant
            n == s@.len(),
            cs@ == s@,
            i <= n,
            forall|k: int| 0 <= k < i ==> s@[k] != c,
        decreases n - i,
    {
        i += 1;
    }
    proof {
        lemma_first_index_of(s@, c);
        let f = first_index_of(s@, c);
        if f < i {
            assert(s@[f] != c);
        }
        if i < f {
            assert(s@[i as int] != c);
        }
    }
    s.substring_char(0, i)
}

/// Index of the first white-space character of `s`, or `s.len()` when there
/// is none.
pub open spec fn first_space_index(s: Seq<char>) -> int
    decreases s.len(),
{
    if s.len() == 0 {
        0
    } else if is_white_space(s[0]) {
        0
    } else {
        1 + first_space_index(s.drop_first())
    }
}

pub proof fn lemma_first_space_index(s: Seq<char>)
    ensures
        0 <= first_space_index(s) <= s.len(),
        forall|k: int| 0 <= k < first_space_index(s) ==> !is_white_space(#[trigger] s[k]),
        first_space_index(s) < s.len() ==> is_white_space(s[first_space_index(s)]),
    decreases s.len(),
{
    if s.len() > 0 && !is_white_space(s[0]) {
        lemma_first_space_index(s.drop_first());
        assert forall|k: int| 0 <= k < first_space_index(s) implies !is_white_space(
            #[trigger] s[k],
        ) by {
            if k > 0 {
                assert(s[k] == s.drop_first()[k - 1]);
            }
        }
    }
}

/// The index of the first white-space character of `s`, or its length.
pub fn first_space(s: &str) -> (r: usize)
    ensures
        r == first_space_index(s@),
{
    let cs = chars_of(s);
    let n = cs.len();
    let mut i: usize = 0;
    while i < n && !is_whitespace(cs[i])
        invariant
            n == s@.len(),
            cs@ == s@,
            i <= n,
            forall|k: int| 0 <= k < i ==> !is_white_space(#[trigger] s@[k]),
        decreases n - i,
    {
        i += 1;
    }
    proof {
        lemma_first_space_index(s@);
        let f = first_space_index(s@);
        if f < i {
            assert(!is_white_space(s@[f]));
        }
        if i < f {
            assert(!is_white_space(s@[i as int]));
        }
    }
    i
}

/// The text of an optional string.
pub open spec fn opt_text(o: Option<String>) -> Option<Seq<char>> {
    match o {
        Some(s) => Some(s@),
        None => None,
    }
}

/// Whether `a` and `b` hold the same characters.
pub fn str_eq(a: &str, b: &str) -> (r: bool)
    ensures
        r == (a@ == b@),
{
    let x = chars_of(a);
    let y = chars_of(b);
    if x.len() != y.len() {
        return false;
    }
    let mut i: usize = 0;
    while i < x.len()
        invariant
            x@ == a@,
            y@ == b@,
            x.len() == y.len(),
            i <= x.len(),
            forall|k: int| 0 <= k < i ==> x@[k] == y@[k],
        decreases x.len() - i,
    {
        if x[i] != y[i] {
            return false;
        }
        i += 1;
    }
    assert(a@ =~= b@);
    true
}

/// Whether `p` occurs in `s` at index `at`.
fn occurs_at_exec(s: &Vec<char>, p: &Vec<char>, at: usize) -> (r: bool)
    ensures
        r == occurs_at(s@, p@, at as int),
{
    if at > s.len() || p.len() > s.len() - at {
        return false;
    }
    let mut k: usize = 0;
    while k < p.len()
        invariant
            at + p.len() <= s.len(),
            k <= p.len(),
            forall|m: int| 0 <= m < k ==> s@[at + m] == p@[m],
        decreases p.len() - k,
    {
        if s[at + k] != p[k] {
            assert(s@.subrange(at as int, at + p.len())[k as int] != p@[k as int]);
            return false;
        }
        k += 1;
    }
    assert(s@.subrange(at as int, at + p.len()) =~= p@);
    true
}

/// Whether `s` starts with `p`.
pub fn starts_with(s: &str, p: &str) -> (r: bool)
    ensures
        r == has_prefix(s@, p@),
{
    let x = chars_of(s);
    let y = chars_of(p);
    occurs_at_exec(&x, &y, 0)
}

/// Whether `p` occurs in `s`.
pub fn contains(s: &str, p: &str) -> (r: bool)
    ensures
        r == has_infix(s@, p@),
{
    let x = chars_of(s);
    let y = chars_of(p);
    if y.len() > x.len() {
        assert(!has_infix(s@, p@));
        return false;
    }
    let last = x.len() - y.len();
    let mut i: usize = 0;
    while i <= last
        invariant
            x@ == s@,
            y@ == p@,
            last == x.len() - y.len(),
            forall|k: int| 0 <= k < i ==> !occurs_at(s@, p@, k),
        decreases last + 1 - i,
    {
        if occurs_at_exec(&x, &y, i) {
            return true;
        }
        if i == last {
            assert forall|k: int| occurs_at(s@, p@, k) implies false by {
                assert(k <= last);
            }
            return false;
        }
        i += 1;
    }
    false
}


/// The decimal digit for `d` (`d` below ten).
pub open spec fn digit_char(d: nat) -> char {
    if d == 0 { '0' }
    else if d == 1 { '1' }
    else if d == 2 { '2' }
    else if d == 3 { '3' }
    else if d == 4 { '4' }
    else if d == 5 { '5' }
    else if d == 6 { '6' }
    else if d == 7 { '7' }
    else if d == 8 { '8' }
    else { '9' }
}

/// The decimal representation of `n`, without sign or leading zeros.
pub open spec fn decimal(n: nat) -> Seq<char>
    decreases n,
{
    if n < 10 {
        seq![digit_char(n)]
    } else {
        decimal(n / 10).push(digit_char(n % 10))
    }
}

fn digit_str(d: u64) -> (r: &'static str)
    requires
        d < 10,
    ensures
        r@ == seq![digit_char(d as nat)],
{
    proof {
        reveal_strlit("0");
        reveal_strlit("1");
        reveal_strlit("2");
        reveal_strlit("3");
        reveal_strlit("4");
        reveal_strlit("5");
        reveal_strlit("6");
        reveal_strlit("7");
        reveal_strlit("8");
        reveal_strlit("9");
    }
    if d == 0 { "0" }
    else if d == 1 { "1" }
    else if d == 2 { "2" }
    else if d == 3 { "3" }
    else if d == 4 { "4" }
    else if d == 5 { "5" }
    else if d == 6 { "6" }
    else if d == 7 { "7" }
    else if d == 8 { "8" }
    else { "9" }
}

/// `n` written in decimal, as `n.to_string()` writes it.
pub fn decimal_string(n: u64) -> (r: String)
    ensures
        r@ == decimal(n as nat),
    decreases n,
{
    if n < 10 {
        digit_str(n).to_owned()
    } else {
        let mut s = decimal_string(n / 10);
        s.append(digit_str(n % 10));
        s
    }
}

/// The number that a string of decimal digits denotes.
pub open spec fn digits_value(s: Seq<char>) -> int
    decreases s.len(),
{
    if s.len() == 0 {
        0
    } else {
        digits_value(s.drop_last()) * 10 + (s.last() as int - '0' as int)
    }
}

proof fn lemma_digit_value(d: nat)
    requires
        d < 10,
    ensures
        digit_char(d) as int - '0' as int == d,
        '0' <= digit_char(d) <= '9',
{
}

/// `decimal(n)` is the shortest string of decimal digits that denotes `n`:
/// every character is a digit, it denotes `n`, and it starts with `0` only
/// when it is `0` itself.
pub proof fn lemma_decimal_denotes(n: nat)
    ensures
        decimal(n).len() >= 1,
        forall|k: int| 0 <= k < decimal(n).len() ==> '0' <= #[trigger] decimal(n)[k] <= '9',
        digits_value(decimal(n)) == n,
        decimal(n)[0] == '0' ==> n == 0,
    decreases n,
{
    if n < 10 {
        lemma_digit_value(n);
        assert(seq![digit_char(n)].drop_last() =~= Seq::<char>::empty());
        assert(digits_value(Seq::<char>::empty()) == 0);
        assert(digits_value(decimal(n)) == digits_value(Seq::<char>::empty()) * 10 + (digit_char(
            n,
        ) as int - '0' as int));
    } else {
        lemma_digit_value(n % 10);
        lemma_decimal_denotes(n / 10);
        let d = decimal(n / 10);
        assert(d.push(digit_char(n % 10)).drop_last() =~= d);
        assert(d.push(digit_char(n % 10))[0] == d[0]);
        assert(n == (n / 10) * 10 + n % 10);
        assert(digits_value(decimal(n)) == digits_value(d) * 10 + (digit_char(n % 10) as int
            - '0' as int));
        assert forall|k: int| 0 <= k < decimal(n).len() implies '0' <= #[trigger] decimal(n)[k]
            <= '9' by {
            if k < d.len() {
                assert(decimal(n)[k] == d[k]);
            }
        }
        assert(n / 10 > 0);
    }
}

/// The part before the first `c`: a prefix of `s` without any `c`, which is
/// all of `s` when `s` holds no `c`, and is followed by a `c` otherwise.
pub proof fn lemma_before_first_stops_at_first(s: Seq<char>, c: char)
    ensures
        has_prefix(s, before_first(s, c)),
        forall|k: int| 0 <= k < before_first(s, c).len() ==> #[trigger] before_first(s, c)[k] != c,
        before_first(s, c).len() == s.len() || s[before_first(s, c).len() as int] == c,
{
    lemma_first_index_of(s, c);
    let f = first_index_of(s, c);
    assert forall|k: int| 0 <= k < before_first(s, c).len() implies #[trigger] before_first(
        s,
        c,
    )[k] != c by {
        assert(before_first(s, c)[k] == s[k]);
    }
}

/// A copy of `s`.
pub fn owned(s: &str) -> (r: String)
    ensures
        r@ == s@,
{
    s.to_owned()
}

} // verus!
