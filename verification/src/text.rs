//! Character-level string utilities with exact specifications.

use vstd::prelude::*;

verus! {

broadcast use vstd::string::group_string_axioms;

/// Appends one character to a string (std's `String::push`): the new
/// contents are the old contents followed by `c`.
#[verifier::external_body]
pub(crate) fn push_char(s: &mut String, c: char)
    ensures
        final(s)@ == old(s)@.push(c),
{
    s.push(c);
}

/// The characters of `s`, in order.
pub fn chars_of(s: &str) -> (r: Vec<char>)
    ensures
        r@ == s@,
{
    let mut r: Vec<char> = Vec::new();
    for c in it: s.chars()
        invariant
            it.seq() == s@,
            r@ == s@.take(it.index() as int),
    {
        r.push(c);
    }
    assert(r@ =~= s@);
    r
}

/// The string made of `cs[lo..hi]`.
pub fn string_of_range(cs: &Vec<char>, lo: usize, hi: usize) -> (r: String)
    requires
        lo <= hi <= cs.len(),
    ensures
        r@ == cs@.subrange(lo as int, hi as int),
{
    let mut r = String::new();
    let mut i = lo;
    while i < hi
        invariant
            lo <= i <= hi <= cs.len(),
            r@ == cs@.subrange(lo as int, i as int),
        decreases hi - i,
    {
        push_char(&mut r, cs[i]);
        i = i + 1;
        assert(r@ =~= cs@.subrange(lo as int, i as int));
    }
    r
}

/// The string made of all of `cs`.
pub fn string_of(cs: &Vec<char>) -> (r: String)
    ensures
        r@ == cs@,
{
    let r = string_of_range(cs, 0, cs.len());
    assert(cs@.subrange(0, cs@.len() as int) =~= cs@);
    r
}

/// Appends `t` to `s`.
pub fn append_str(s: &mut String, t: &str)
    ensures
        final(s)@ == old(s)@ + t@,
{
    s.append(t);
}

/// Whether two strings hold the same characters.
pub fn str_eq(a: &str, b: &str) -> (r: bool)
    ensures
        r == (a@ == b@),
{
    let x = chars_of(a);
    let y = chars_of(b);
    if x.len() != y.len() {
        return false;
    }
    let n = x.len();
    let mut i: usize = 0;
    while i < n
        invariant
            n == x.len() == y.len(),
            x@ == a@,
            y@ == b@,
            i <= n,
            forall|k: int| 0 <= k < i ==> x@[k] == y@[k],
        decreases n - i,
    {
        if x[i] != y[i] {
            assert(x@[i as int] != y@[i as int]);
            assert(x@ != y@);
            return false;
        }
        i = i + 1;
    }
    assert(x@ =~= y@);
    true
}

// ---------------------------------------------------------------------------
// Whitespace and trimming

/// The characters that carry the Unicode `White_Space` property, which is
/// what `char::is_whitespace` tests.
pub open spec fn is_white(c: char) -> bool {
    ||| c == ' '
    ||| ('\t' <= c && c <= '\r')
    ||| c == '\u{85}'
    ||| c == '\u{a0}'
    ||| c == '\u{1680}'
    ||| ('\u{2000}' <= c && c <= '\u{200a}')
    ||| c == '\u{2028}'
    ||| c == '\u{2029}'
    ||| c == '\u{202f}'
    ||| c == '\u{205f}'
    ||| c == '\u{3000}'
}

/// Executable test for `is_white`.
pub fn is_white_char(c: char) -> (r: bool)
    ensures
        r == is_white(c),
{
    c == ' ' || ('\t' <= c && c <= '\r') || c == '\u{85}' || c == '\u{a0}' || c == '\u{1680}'
        || ('\u{2000}' <= c && c <= '\u{200a}') || c == '\u{2028}' || c == '\u{2029}'
        || c == '\u{202f}' || c == '\u{205f}' || c == '\u{3000}'
}

/// `s` without its leading whitespace.
pub open spec fn trim_start(s: Seq<char>) -> Seq<char>
    decreases s.len(),
{
    if s.len() > 0 && is_white(s[0]) {
        trim_start(s.drop_first())
    } else {
        s
    }
}

/// `s` without its trailing whitespace.
pub open spec fn trim_end(s: Seq<char>) -> Seq<char>
    decreases s.len(),
{
    if s.len() > 0 && is_white(s.last()) {
        trim_end(s.drop_last())
    } else {
        s
    }
}

/// `s` without leading and trailing whitespace (what `str::trim` returns).
pub open spec fn trimmed(s: Seq<char>) -> Seq<char> {
    trim_end(trim_start(s))
}

proof fn lemma_trim_start_skip(s: Seq<char>, i: int)
    requires
        0 <= i <= s.len(),
        forall|k: int| 0 <= k < i ==> is_white(#[trigger] s[k]),
    ensures
        trim_start(s) == trim_start(s.skip(i)),
    decreases i,
{
    if i > 0 {
        assert(s.drop_first().skip(i - 1) =~= s.skip(i));
        assert forall|k: int| 0 <= k < i - 1 implies is_white(#[trigger] s.drop_first()[k]) by {
            assert(s.drop_first()[k] == s[k + 1]);
        }
        lemma_trim_start_skip(s.drop_first(), i - 1);
    } else {
        assert(s.skip(0) =~= s);
    }
}

proof fn lemma_trim_end_take(s: Seq<char>, j: int)
    requires
        0 <= j <= s.len(),
        forall|k: int| j <= k < s.len() ==> is_white(#[trigger] s[k]),
    ensures
        trim_end(s) == trim_end(s.take(j)),
    decreases s.len() - j,
{
    if j < s.len() {
        assert(s.drop_last().take(j) =~= s.take(j));
        assert forall|k: int| j <= k < s.len() - 1 implies is_white(#[trigger] s.drop_last()[k]) by {
            assert(s.drop_last()[k] == s[k]);
        }
        assert(is_white(s.last()));
        lemma_trim_end_take(s.drop_last(), j);
    } else {
        assert(s.take(j) =~= s);
    }
}

proof fn lemma_trim_start_shape(s: Seq<char>)
    ensures
        exists|p: int| 0 <= p <= s.len() && trim_start(s) == s.skip(p) && (forall|k: int| 0 <= k < p ==> is_white(
            #[trigger] s[k],
        )) && (p < s.len() ==> !is_white(s[p])),
    decreases s.len(),
{
    if s.len() > 0 && is_white(s[0]) {
        lemma_trim_start_shape(s.drop_first());
        let p = choose|p: int| 0 <= p <= s.drop_first().len() && trim_start(s.drop_first()) == s.drop_first().skip(p)
            && (forall|k: int| 0 <= k < p ==> is_white(#[trigger] s.drop_first()[k])) && (p < s.drop_first().len()
            ==> !is_white(s.drop_first()[p]));
        assert(s.drop_first().skip(p) =~= s.skip(p + 1));
        assert forall|k: int| 0 <= k < p + 1 implies is_white(#[trigger] s[k]) by {
            if k > 0 {
                assert(s[k] == s.drop_first()[k - 1]);
            }
        }
        assert(p + 1 < s.len() ==> s[p + 1] == s.drop_first()[p]);
    } else {
        assert(s.skip(0) =~= s);
    }
}

proof fn lemma_trim_end_shape(s: Seq<char>)
    ensures
        exists|q: int| 0 <= q <= s.len() && trim_end(s) == s.take(q) && (forall|k: int| q <= k < s.len() ==> is_white(
            #[trigger] s[k],
        )) && (q > 0 ==> !is_white(s[q - 1])),
    decreases s.len(),
{
    if s.len() > 0 && is_white(s.last()) {
        lemma_trim_end_shape(s.drop_last());
        let q = choose|q: int| 0 <= q <= s.drop_last().len() && trim_end(s.drop_last()) == s.drop_last().take(q)
            && (forall|k: int| q <= k < s.drop_last().len() ==> is_white(#[trigger] s.drop_last()[k])) && (q > 0
            ==> !is_white(s.drop_last()[q - 1]));
        assert(s.drop_last().take(q) =~= s.take(q));
        assert forall|k: int| q <= k < s.len() implies is_white(#[trigger] s[k]) by {
            if k < s.len() - 1 {
                assert(s[k] == s.drop_last()[k]);
            }
        }
        assert(q > 0 ==> s[q - 1] == s.drop_last()[q - 1]);
    } else {
        assert(s.take(s.len() as int) =~= s);
    }
}

/// Trimming keeps a middle stretch of `s`: everything cut off is
/// whitespace, and the kept text neither starts nor ends with whitespace.
pub proof fn law_trimmed_is_inner_stretch(s: Seq<char>)
    ensures
        exists|lo: int, hi: int|
            0 <= lo <= hi <= s.len() && trimmed(s) == s.subrange(lo, hi) && (forall|k: int|
                0 <= k < lo ==> is_white(#[trigger] s[k])) && (forall|k: int| hi <= k < s.len() ==> is_white(
                #[trigger] s[k],
            )) && (lo < hi ==> !is_white(s[lo]) && !is_white(s[hi - 1])),
{
    lemma_trim_start_shape(s);
    let p = choose|p: int| 0 <= p <= s.len() && trim_start(s) == s.skip(p) && (forall|k: int| 0 <= k < p ==> is_white(
        #[trigger] s[k],
    )) && (p < s.len() ==> !is_white(s[p]));
    let t = s.skip(p);
    lemma_trim_end_shape(t);
    let q = choose|q: int| 0 <= q <= t.len() && trim_end(t) == t.take(q) && (forall|k: int| q <= k < t.len() ==> is_white(
        #[trigger] t[k],
    )) && (q > 0 ==> !is_white(t[q - 1]));
    assert(t.take(q) =~= s.subrange(p, p + q));
    assert forall|k: int| p + q <= k < s.len() implies is_white(#[trigger] s[k]) by {
        assert(s[k] == t[k - p]);
    }
    if q > 0 {
        assert(s[p] == t[0]);
        assert(s[p + q - 1] == t[q - 1]);
    }
    assert(trimmed(s) == s.subrange(p, p + q));
}

/// The characters of `cs` without leading and trailing whitespace.
pub fn trim_chars(cs: &Vec<char>) -> (r: Vec<char>)
    ensures
        r@ == trimmed(cs@),
{
    let n = cs.len();
    let mut i: usize = 0;
    while i < n && is_white_char(cs[i])
        invariant
            i <= n == cs.len(),
            forall|k: int| 0 <= k < i ==> is_white(#[trigger] cs@[k]),
        decreases n - i,
    {
        i = i + 1;
    }
    proof {
        lemma_trim_start_skip(cs@, i as int);
    }
    let ghost rest = cs@.skip(i as int);
    assert(rest.len() == 0 || !is_white(rest[0]));
    assert(trim_start(cs@) == rest);
    let mut j: usize = n;
    while j > i && is_white_char(cs[j - 1])
        invariant
            i <= j <= n == cs.len(),
            forall|k: int| j <= k < n ==> is_white(#[trigger] cs@[k]),
        decreases j,
    {
        j = j - 1;
    }
    proof {
        assert forall|k: int| j - i <= k < rest.len() implies is_white(#[trigger] rest[k]) by {
            assert(rest[k] == cs@[k + i]);
        }
        lemma_trim_end_take(rest, j - i);
        assert(rest.take(j - i) =~= cs@.subrange(i as int, j as int));
    }
    let mut r: Vec<char> = Vec::new();
    let mut k = i;
    while k < j
        invariant
            i <= k <= j <= n == cs.len(),
            r@ == cs@.subrange(i as int, k as int),
        decreases j - k,
    {
        r.push(cs[k]);
        k = k + 1;
        assert(r@ =~= cs@.subrange(i as int, k as int));
    }
    r
}

/// `s` without leading and trailing whitespace (`str::trim`).
pub fn trim(s: &str) -> (r: String)
    ensures
        r@ == trimmed(s@),
{
    let cs = chars_of(s);
    let t = trim_chars(&cs);
    string_of(&t)
}

// ---------------------------------------------------------------------------
// Searching

/// Whether `pat` occurs in `s` at position `i`.
pub open spec fn occurs_at(s: Seq<char>, pat: Seq<char>, i: int) -> bool {
    0 <= i && i + pat.len() <= s.len() && s.subrange(i, i + pat.len()) == pat
}

/// The first position at or after `i` where `pat` occurs in `s`.
pub open spec fn find_from(s: Seq<char>, pat: Seq<char>, i: int) -> Option<int>
    decreases s.len() + 1 - i,
{
    if i < 0 || i + pat.len() > s.len() {
        None
    } else if s.subrange(i, i + pat.len()) == pat {
        Some(i)
    } else {
        find_from(s, pat, i + 1)
    }
}

/// The first position where `pat` occurs in `s`.
pub open spec fn find(s: Seq<char>, pat: Seq<char>) -> Option<int> {
    find_from(s, pat, 0)
}

/// `s` split around the first occurrence of `pat` (`str::split_once`).
pub open spec fn split_once(s: Seq<char>, pat: Seq<char>) -> Option<(Seq<char>, Seq<char>)> {
    match find(s, pat) {
        Some(i) => Some((s.take(i), s.skip(i + pat.len()))),
        None => None,
    }
}

/// What `find_from` returns: the first occurrence, if any.
pub proof fn lemma_find_from(s: Seq<char>, pat: Seq<char>, i: int)
    requires
        0 <= i,
    ensures
        find_from(s, pat, i) matches Some(j) ==> i <= j && occurs_at(s, pat, j) && forall|k: int|
            i <= k < j ==> !occurs_at(s, pat, k),
        find_from(s, pat, i) is None ==> forall|k: int| i <= k ==> !occurs_at(s, pat, k),
    decreases s.len() + 1 - i,
{
    if i + pat.len() > s.len() {
    } else if s.subrange(i, i + pat.len()) == pat {
    } else {
        lemma_find_from(s, pat, i + 1);
    }
}

/// Whether `pat` occurs in `cs` at position `i`.
fn occurs_at_exec(cs: &Vec<char>, pat: &Vec<char>, i: usize) -> (r: bool)
    requires
        i + pat.len() <= cs.len(),
    ensures
        r == occurs_at(cs@, pat@, i as int),
{
    let m = pat.len();
    let mut k: usize = 0;
    while k < m
        invariant
            i + m <= cs.len(),
            m == pat.len(),
            k <= m,
            forall|t: int| 0 <= t < k ==> cs@[i + t] == pat@[t],
        decreases m - k,
    {
        if cs[i + k] != pat[k] {
            assert(cs@.subrange(i as int, i + m)[k as int] != pat@[k as int]);
            return false;
        }
        k = k + 1;
    }
    assert(cs@.subrange(i as int, i + m) =~= pat@);
    true
}

/// The first position at or after `start` where `pat` occurs in `cs`.
pub fn find_chars_from(cs: &Vec<char>, pat: &Vec<char>, start: usize) -> (r: Option<usize>)
    ensures
        match r {
            Some(i) => find_from(cs@, pat@, start as int) == Some(i as int),
            None => find_from(cs@, pat@, start as int) is None,
        },
{
    if pat.len() > cs.len() {
        return None;
    }
    let last = cs.len() - pat.len();
    if start > last {
        return None;
    }
    let mut i: usize = start;
    loop
        invariant
            last + pat.len() == cs.len(),
            start <= i <= last,
            find_from(cs@, pat@, start as int) == find_from(cs@, pat@, i as int),
        decreases last - i,
    {
        if occurs_at_exec(cs, pat, i) {
            return Some(i);
        }
        if i == last {
            assert(find_from(cs@, pat@, i + 1) is None);
            return None;
        }
        i = i + 1;
    }
}

/// The first position where `pat` occurs in `cs`.
pub fn find_chars(cs: &Vec<char>, pat: &Vec<char>) -> (r: Option<usize>)
    ensures
        match r {
            Some(i) => find(cs@, pat@) == Some(i as int),
            None => find(cs@, pat@) is None,
        },
{
    find_chars_from(cs, pat, 0)
}

/// `s` split around the first occurrence of `pat` (`str::split_once`).
pub fn split_once_str(s: &str, pat: &str) -> (r: Option<(String, String)>)
    ensures
        match r {
            Some((a, b)) => split_once(s@, pat@) == Some((a@, b@)),
            None => split_once(s@, pat@) is None,
        },
{
    let cs = chars_of(s);
    let ps = chars_of(pat);
    match find_chars(&cs, &ps) {
        Some(i) => {
            proof {
                lemma_find_from(cs@, ps@, 0);
                assert(find_from(cs@, ps@, 0) == Some(i as int));
                assert(occurs_at(cs@, ps@, i as int));
                assert(i + ps@.len() <= cs@.len());
            }
            assert(i + ps.len() <= cs.len());
            let a = string_of_range(&cs, 0, i);
            let b = string_of_range(&cs, i + ps.len(), cs.len());
            assert(a@ =~= cs@.take(i as int));
            assert(b@ =~= cs@.skip(i + ps@.len()));
            Some((a, b))
        },
        None => None,
    }
}

/// Whether `pat` occurs in `s` (`str::contains`).
pub fn contains_str(s: &str, pat: &str) -> (r: bool)
    ensures
        r == find(s@, pat@) is Some,
{
    let cs = chars_of(s);
    let ps = chars_of(pat);
    find_chars(&cs, &ps).is_some()
}

// ---------------------------------------------------------------------------
// Replacement

/// `s` with every non-overlapping occurrence of `from`, scanned from the
/// left, replaced by `to` (`str::replace` for a non-empty `from`).
pub open spec fn replace_all(s: Seq<char>, from: Seq<char>, to: Seq<char>) -> Seq<char>
    decreases s.len(),
{
    if from.len() == 0 {
        s
    } else {
        match find(s, from) {
            Some(i) => {
                if 0 <= i && i + from.len() <= s.len() {
                    s.take(i) + to + replace_all(s.skip(i + from.len()), from, to)
                } else {
                    s
                }
            },
            None => s,
        }
    }
}

/// Replacing a text that never holds `from` leaves it as it is.
pub proof fn law_replace_without_occurrence(s: Seq<char>, from: Seq<char>, to: Seq<char>)
    requires
        forall|k: int| 0 <= k ==> !occurs_at(s, from, k),
    ensures
        replace_all(s, from, to) == s,
{
    lemma_find_from(s, from, 0);
}

proof fn lemma_find_from_shift(s: Seq<char>, pat: Seq<char>, p: int, i: int)
    requires
        0 <= p <= i,
        p <= s.len(),
    ensures
        find_from(s, pat, i) == match find_from(s.skip(p), pat, i - p) {
            Some(j) => Some(j + p),
            None => None::<int>,
        },
    decreases s.len() + 1 - i,
{
    if i + pat.len() > s.len() {
    } else {
        assert(s.skip(p).subrange(i - p, i - p + pat.len()) =~= s.subrange(i, i + pat.len()));
        if s.subrange(i, i + pat.len()) != pat {
            lemma_find_from_shift(s, pat, p, i + 1);
        }
    }
}

/// `cs` with every occurrence of `from` replaced by `to`, scanning from the left.
pub fn replace_chars(cs: &Vec<char>, from: &Vec<char>, to: &Vec<char>) -> (r: Vec<char>)
    requires
        from.len() > 0,
    ensures
        r@ == replace_all(cs@, from@, to@),
{
    let n = cs.len();
    let m = from.len();
    let mut r: Vec<char> = Vec::new();
    let mut p: usize = 0;
    assert(cs@.skip(0) =~= cs@);
    loop
        invariant
            n == cs.len(),
            m == from.len() > 0,
            p <= n,
            r@ + replace_all(cs@.skip(p as int), from@, to@) == replace_all(cs@, from@, to@),
        decreases n - p,
    {
        let ghost rest = cs@.skip(p as int);
        proof {
            lemma_find_from_shift(cs@, from@, p as int, p as int);
        }
        match find_chars_from(cs, from, p) {
            None => {
                assert(find(rest, from@) is None);
                let ghost before = r@;
                let mut k = p;
                while k < n
                    invariant
                        p <= k <= n == cs.len(),
                        r@ == before + cs@.subrange(p as int, k as int),
                    decreases n - k,
                {
                    r.push(cs[k]);
                    k = k + 1;
                    assert(r@ =~= before + cs@.subrange(p as int, k as int));
                }
                assert(cs@.subrange(p as int, n as int) =~= rest);
                return r;
            },
            Some(i) => {
                proof {
                    lemma_find_from(cs@, from@, p as int);
                    assert(find(rest, from@) == Some(i - p));
                    assert(rest.take(i - p) =~= cs@.subrange(p as int, i as int));
                    assert(rest.skip(i - p + m) =~= cs@.skip(i + m));
                }
                let ghost before = r@;
                let mut k = p;
                while k < i
                    invariant
                        p <= k <= i,
                        i + m <= n == cs.len(),
                        r@ == before + cs@.subrange(p as int, k as int),
                    decreases i - k,
                {
                    r.push(cs[k]);
                    k = k + 1;
                    assert(r@ =~= before + cs@.subrange(p as int, k as int));
                }
                let ghost mid = r@;
                let mut t: usize = 0;
                while t < to.len()
                    invariant
                        t <= to.len(),
                        r@ == mid + to@.take(t as int),
                    decreases to.len() - t,
                {
                    r.push(to[t]);
                    t = t + 1;
                    assert(r@ =~= mid + to@.take(t as int));
                }
                assert(to@.take(to.len() as int) =~= to@);
                assert(r@ + replace_all(cs@.skip(i + m), from@, to@) =~= before + (rest.take(i - p)
                    + to@ + replace_all(rest.skip(i - p + m), from@, to@)));
                p = i + m;
            },
        }
    }
}

// ---------------------------------------------------------------------------
// Decimal numerals

/// The decimal digit character for `d` (`0 <= d < 10`).
pub open spec fn digit_char(d: nat) -> char {
    (48 + d) as char
}

/// The decimal numeral of `n`, without sign or leading zeros.
pub open spec fn decimal(n: nat) -> Seq<char>
    decreases n,
{
    if n < 10 {
        seq![digit_char(n)]
    } else {
        decimal(n / 10).push(digit_char(n % 10))
    }
}

/// The decimal numeral of `n`, with a leading `-` when it is negative
/// (what `Display` prints for an integer).
pub open spec fn signed_decimal(n: int) -> Seq<char> {
    if n < 0 {
        seq!['-'] + decimal((-n) as nat)
    } else {
        decimal(n as nat)
    }
}

fn digit(d: u64) -> (c: char)
    requires
        d < 10,
    ensures
        c == digit_char(d as nat),
{
    ((48 + d) as u8) as char
}

/// Appends the decimal numeral of `n` to `s`.
pub fn push_decimal(s: &mut String, n: u64)
    ensures
        final(s)@ == old(s)@ + decimal(n as nat),
    decreases n,
{
    if n >= 10 {
        push_decimal(s, n / 10);
    }
    push_char(s, digit(n % 10));
    assert(final(s)@ =~= old(s)@ + decimal(n as nat));
}

/// The decimal numeral of `n` (`n.to_string()`).
pub fn fmt_u64(n: u64) -> (r: String)
    ensures
        r@ == decimal(n as nat),
{
    let mut r = String::new();
    push_decimal(&mut r, n);
    assert(r@ =~= decimal(n as nat));
    r
}

/// The decimal numeral of `n`, signed (`n.to_string()`).
pub fn fmt_i64(n: i64) -> (r: String)
    ensures
        r@ == signed_decimal(n as int),
{
    let mut r = String::new();
    if n < 0 {
        push_char(&mut r, '-');
        let m: u64 = if n == i64::MIN {
            9223372036854775808u64
        } else {
            (-n) as u64
        };
        push_decimal(&mut r, m);
    } else {
        push_decimal(&mut r, n as u64);
    }
    assert(r@ =~= signed_decimal(n as int));
    r
}

} // verus!
