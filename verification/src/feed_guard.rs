//! Which feed bodies may be handed to the feed parser.
//!
//! feed-rs panics on some bodies. Media times (the `time`, `start` and
//! `end` attributes of media elements, and `itunes:duration` in RSS) are
//! read with `unwrap` on digit runs, which fails on runs that overflow
//! `u64` (or overflow when scaled to seconds) and on non-ASCII digits.
//! Person texts in RSS, RDF and JSON feeds are split around an e-mail
//! address at byte positions that need not be character boundaries, which
//! can only go wrong where the text holds both `@` and a non-ASCII
//! character. The predicate here admits the bodies on which none of that
//! can happen; it is read on the raw bytes.

use vstd::prelude::*;

verus! {

/// Whether `b` is XML white space (space, tab, carriage return, line feed).
pub open spec fn xml_space(b: u8) -> bool {
    b == 0x20 || b == 0x09 || b == 0x0d || b == 0x0a
}

/// Whether `b` is an ASCII decimal digit.
pub open spec fn is_digit(b: u8) -> bool {
    0x30 <= b && b <= 0x39
}

/// Whether all of `body[lo..hi]` is XML white space.
pub open spec fn spaces(body: Seq<u8>, lo: int, hi: int) -> bool {
    forall|t: int| lo <= t < hi ==> xml_space(#[trigger] body[t])
}

/// Whether `name` occurs in `body` at position `i`.
pub open spec fn bytes_at(body: Seq<u8>, i: int, name: Seq<u8>) -> bool {
    0 <= i && i + name.len() <= body.len() && body.subrange(i, i + name.len()) == name
}

/// The length of the run of ASCII digits in `body[lo..j]` that ends at `j`.
pub open spec fn run_len(body: Seq<u8>, lo: int, j: int) -> nat
    decreases j - lo,
{
    if j <= lo || j > body.len() || !is_digit(body[j - 1]) {
        0
    } else {
        run_len(body, lo, j - 1) + 1
    }
}

/// Whether `body[lo..hi]` holds no run of sixteen or more ASCII digits (a
/// run of at most fifteen digits read as hours, minutes or seconds cannot
/// overflow `u64` seconds).
pub open spec fn short_digit_runs(body: Seq<u8>, lo: int, hi: int) -> bool {
    forall|j: int| lo <= j <= hi ==> #[trigger] run_len(body, lo, j) < 16
}

/// Whether `body[lo..hi]` is plain ASCII without character references and
/// without long digit runs: text that a media time is safely read from.
pub open spec fn plain_value(body: Seq<u8>, lo: int, hi: int) -> bool {
    &&& forall|t: int| lo <= t < hi ==> (#[trigger] body[t]) < 0x80 && body[t] != 0x26
    &&& short_digit_runs(body, lo, hi)
}

/// The position of the first byte at or after `j` that equals `body[q]`,
/// or the end of `body`: where a value opened by the quote at `q` closes.
pub open spec fn closing_quote(body: Seq<u8>, q: int, j: int) -> int
    decreases body.len() - j,
{
    if j < 0 || j >= body.len() {
        body.len() as int
    } else if body[j] == body[q] {
        j
    } else {
        closing_quote(body, q, j + 1)
    }
}

/// Whether `name` at `i` is an attribute name whose quoted value opens at
/// `q`: the name, optional white space, `=`, optional white space, and a
/// quote at `q`.
pub open spec fn quoted_attr_at(body: Seq<u8>, i: int, name: Seq<u8>, q: int) -> bool {
    &&& bytes_at(body, i, name)
    &&& 0 <= q < body.len()
    &&& (body[q] == 0x22 || body[q] == 0x27)
    &&& exists|e: int|
        i + name.len() <= e < q && body[e] == 0x3d && spaces(body, i + name.len(), e) && spaces(body, e + 1, q)
}

/// Whether the value of an attribute named `name` at `i`, if there is one,
/// is plain.
pub open spec fn attr_value_plain(body: Seq<u8>, i: int, name: Seq<u8>) -> bool {
    forall|q: int| #[trigger] quoted_attr_at(body, i, name, q) ==> plain_value(body, q + 1, closing_quote(body, q, q + 1))
}

/// Whether `name` stands at `i` right after `<` or `:`, as the local name
/// of an element does.
pub open spec fn element_name_at(body: Seq<u8>, i: int, name: Seq<u8>) -> bool {
    1 <= i && (body[i - 1] == 0x3c || body[i - 1] == 0x3a) && bytes_at(body, i, name)
}

/// `rss` as bytes.
pub open spec fn rss_bytes() -> Seq<u8> {
    seq![0x72u8, 0x73u8, 0x73u8]
}

/// `RDF` as bytes.
pub open spec fn rdf_bytes() -> Seq<u8> {
    seq![0x52u8, 0x44u8, 0x46u8]
}

/// `time` as bytes.
pub open spec fn time_bytes() -> Seq<u8> {
    seq![0x74u8, 0x69u8, 0x6du8, 0x65u8]
}

/// `start` as bytes.
pub open spec fn start_bytes() -> Seq<u8> {
    seq![0x73u8, 0x74u8, 0x61u8, 0x72u8, 0x74u8]
}

/// `end` as bytes.
pub open spec fn end_bytes() -> Seq<u8> {
    seq![0x65u8, 0x6eu8, 0x64u8]
}

/// Whether the parser reads `body` as JSON: its first `<` or `{` is `{`.
pub open spec fn json_like(body: Seq<u8>) -> bool {
    exists|i: int| 0 <= i < body.len() && body[i] == 0x7b && forall|j: int| 0 <= j < i ==> #[trigger] body[j] != 0x3c
}

/// Whether `body` names an `rss` or `RDF` element, as an RSS or RDF feed does.
pub open spec fn rss_like(body: Seq<u8>) -> bool {
    (exists|i: int| element_name_at(body, i, rss_bytes())) || (exists|i: int| element_name_at(body, i, rdf_bytes()))
}

/// Whether `body` has the byte `x` followed by the byte `y`.
pub open spec fn has_pair(body: Seq<u8>, x: u8, y: u8) -> bool {
    exists|i: int| 0 <= i && i + 1 < body.len() && #[trigger] body[i] == x && body[i + 1] == y
}

/// Whether every byte of `body` is ASCII.
pub open spec fn all_ascii(body: Seq<u8>) -> bool {
    forall|i: int| 0 <= i < body.len() ==> #[trigger] body[i] < 0x80
}

/// Whether `body` contains the byte `x`.
pub open spec fn has_byte(body: Seq<u8>, x: u8) -> bool {
    exists|i: int| 0 <= i < body.len() && #[trigger] body[i] == x
}

/// Whether `name` occurs somewhere in `body`.
pub open spec fn has_bytes(body: Seq<u8>, name: Seq<u8>) -> bool {
    exists|i: int| #[trigger] bytes_at(body, i, name)
}

/// `duration` as bytes.
pub open spec fn duration_bytes() -> Seq<u8> {
    seq![0x64u8, 0x75u8, 0x72u8, 0x61u8, 0x74u8, 0x69u8, 0x6fu8, 0x6eu8]
}

/// Whether no person text of the body can hold both `@` and a non-ASCII
/// character: there is no character reference `&#`, and the body is ASCII
/// or has no `@`.
pub open spec fn person_texts_safe(body: Seq<u8>) -> bool {
    !has_pair(body, 0x26, 0x23) && (all_ascii(body) || !has_byte(body, 0x40))
}

/// Whether every `duration` text (`itunes:duration`) of the body is read
/// safely: there is none, or the body is ASCII, has no character reference
/// `&#`, no `<!` (so no CDATA or comment joins digits) and no run of sixteen
/// or more digits.
pub open spec fn duration_texts_safe(body: Seq<u8>) -> bool {
    !has_bytes(body, duration_bytes()) || (all_ascii(body) && !has_pair(body, 0x26, 0x23) && !has_pair(
        body,
        0x3c,
        0x21,
    ) && short_digit_runs(body, 0, body.len() as int))
}

/// The feed bodies on which `feed_rs::parser::parse` cannot reach its
/// panicking code:
/// - no NUL or ESC byte: the body's ASCII text is its ASCII bytes (UTF-16
///   and ISO-2022-JP documents need those bytes), so what follows can be
///   read on the bytes;
/// - every quoted value of an attribute named `time`, `start` or `end` is
///   plain ASCII, without character references and without a run of
///   sixteen or more digits;
/// - a JSON body has no `\u` escape (the only escape that can give `@` or
///   a non-ASCII character), and is ASCII or has no `@`;
/// - an RSS or RDF body has safe person texts (`person_texts_safe`) and
///   safe durations (`duration_texts_safe`).
/// Atom feeds such as YouTube's, whatever their text, are admitted where
/// their media elements have ordinary times.
pub open spec fn feed_body_parser_safe(body: Seq<u8>) -> bool {
    &&& forall|i: int| 0 <= i < body.len() ==> #[trigger] body[i] != 0 && body[i] != 0x1b
    &&& forall|i: int|
        attr_value_plain(body, i, time_bytes()) && attr_value_plain(body, i, start_bytes()) && attr_value_plain(
            body,
            i,
            end_bytes(),
        )
    &&& json_like(body) ==> !has_pair(body, 0x5c, 0x75) && (all_ascii(body) || !has_byte(body, 0x40))
    &&& rss_like(body) ==> person_texts_safe(body) && duration_texts_safe(body)
}

/// Whether `name` occurs in `body` at position `i`.
fn bytes_at_exec(body: &[u8], i: usize, name: &[u8]) -> (r: bool)
    ensures
        r == bytes_at(body@, i as int, name@),
{
    let n = body.len();
    let m = name.len();
    if i > n || m > n - i {
        return false;
    }
    let mut k: usize = 0;
    while k < m
        invariant
            n == body.len(),
            m == name.len(),
            i + m <= n,
            k <= m,
            forall|t: int| 0 <= t < k ==> body@[i + t] == name@[t],
        decreases m - k,
    {
        if body[i + k] != name[k] {
            assert(body@.subrange(i as int, i + m)[k as int] != name@[k as int]);
            return false;
        }
        k = k + 1;
    }
    assert(body@.subrange(i as int, i + m) =~= name@);
    true
}

/// The first position at or after `k` that is not XML white space, or the end.
fn skip_space(body: &[u8], k: usize) -> (r: usize)
    requires
        k <= body.len(),
    ensures
        k <= r <= body.len(),
        spaces(body@, k as int, r as int),
        r < body.len() ==> !xml_space(body@[r as int]),
{
    let n = body.len();
    let mut j = k;
    while j < n && (body[j] == 0x20 || body[j] == 0x09 || body[j] == 0x0d || body[j] == 0x0a)
        invariant
            n == body.len(),
            k <= j <= n,
            spaces(body@, k as int, j as int),
        decreases n - j,
    {
        j = j + 1;
    }
    j
}

/// Where the value opened by the quote at `q` closes.
fn find_closing(body: &[u8], q: usize) -> (r: usize)
    requires
        q < body.len(),
    ensures
        r as int == closing_quote(body@, q as int, q + 1),
        q < r <= body.len(),
{
    let n = body.len();
    let quote = body[q];
    let mut j = q + 1;
    while j < n && body[j] != quote
        invariant
            n == body.len(),
            q < j <= n,
            quote == body@[q as int],
            closing_quote(body@, q as int, q + 1) == closing_quote(body@, q as int, j as int),
        decreases n - j,
    {
        j = j + 1;
    }
    j
}

/// Whether `body[lo..hi]` has no run of sixteen or more digits.
fn short_runs_exec(body: &[u8], lo: usize, hi: usize) -> (r: bool)
    requires
        lo <= hi <= body.len(),
    ensures
        r == short_digit_runs(body@, lo as int, hi as int),
{
    let mut run: usize = 0;
    let mut j = lo;
    assert(run_len(body@, lo as int, lo as int) == 0);
    while j < hi
        invariant
            lo <= j <= hi <= body.len(),
            run as nat == run_len(body@, lo as int, j as int),
            run < 16,
            forall|t: int| lo <= t <= j ==> #[trigger] run_len(body@, lo as int, t) < 16,
        decreases hi - j,
    {
        if 0x30 <= body[j] && body[j] <= 0x39 {
            run = run + 1;
        } else {
            run = 0;
        }
        j = j + 1;
        assert(run as nat == run_len(body@, lo as int, j as int));
        if run >= 16 {
            return false;
        }
    }
    true
}

/// Whether `body[lo..hi]` is plain (see `plain_value`).
fn plain_value_exec(body: &[u8], lo: usize, hi: usize) -> (r: bool)
    requires
        lo <= hi <= body.len(),
    ensures
        r == plain_value(body@, lo as int, hi as int),
{
    let mut t = lo;
    while t < hi
        invariant
            lo <= t <= hi <= body.len(),
            forall|u: int| lo <= u < t ==> (#[trigger] body@[u]) < 0x80 && body@[u] != 0x26,
        decreases hi - t,
    {
        if body[t] >= 0x80 || body[t] == 0x26 {
            assert(!((body@[t as int]) < 0x80 && body@[t as int] != 0x26));
            return false;
        }
        t = t + 1;
    }
    short_runs_exec(body, lo, hi)
}

/// Whether the value of an attribute named `name` at `i`, if any, is plain.
fn attr_value_plain_exec(body: &[u8], i: usize, name: &[u8]) -> (r: bool)
    ensures
        r == attr_value_plain(body@, i as int, name@),
{
    let n = body.len();
    if !bytes_at_exec(body, i, name) {
        return true;
    }
    let k = i + name.len();
    let e = skip_space(body, k);
    if e >= n || body[e] != 0x3d {
        assert forall|q: int| !#[trigger] quoted_attr_at(body@, i as int, name@, q) by {
            if quoted_attr_at(body@, i as int, name@, q) {
                let e2 = choose|e2: int|
                    k <= e2 < q && body@[e2] == 0x3d && spaces(body@, k as int, e2) && spaces(body@, e2 + 1, q);
                if e2 < e {
                    assert(xml_space(body@[e2]));
                } else if e2 > e {
                    assert(xml_space(body@[e as int]));
                }
            }
        }
        return true;
    }
    let q = skip_space(body, e + 1);
    if q >= n || (body[q] != 0x22 && body[q] != 0x27) {
        assert forall|q2: int| !#[trigger] quoted_attr_at(body@, i as int, name@, q2) by {
            if quoted_attr_at(body@, i as int, name@, q2) {
                let e2 = choose|e2: int|
                    k <= e2 < q2 && body@[e2] == 0x3d && spaces(body@, k as int, e2) && spaces(body@, e2 + 1, q2);
                if e2 < e {
                    assert(xml_space(body@[e2]));
                } else if e2 > e {
                    assert(xml_space(body@[e as int]));
                }
                assert(e2 == e);
                if q2 < q {
                    assert(xml_space(body@[q2]));
                } else if q2 > q {
                    assert(xml_space(body@[q as int]));
                }
            }
        }
        return true;
    }
    assert(quoted_attr_at(body@, i as int, name@, q as int));
    assert forall|q2: int| #[trigger] quoted_attr_at(body@, i as int, name@, q2) implies q2 == q by {
        let e2 = choose|e2: int|
            k <= e2 < q2 && body@[e2] == 0x3d && spaces(body@, k as int, e2) && spaces(body@, e2 + 1, q2);
        if e2 < e {
            assert(xml_space(body@[e2]));
        } else if e2 > e {
            assert(xml_space(body@[e as int]));
        }
        assert(e2 == e);
        if q2 < q {
            assert(xml_space(body@[q2]));
        } else if q2 > q {
            assert(xml_space(body@[q as int]));
        }
    }
    let c = find_closing(body, q);
    plain_value_exec(body, q + 1, c)
}

/// Whether every byte of `body` is ASCII.
fn all_ascii_exec(body: &[u8]) -> (r: bool)
    ensures
        r == all_ascii(body@),
{
    let n = body.len();
    let mut i: usize = 0;
    while i < n
        invariant
            n == body.len(),
            i <= n,
            forall|t: int| 0 <= t < i ==> #[trigger] body@[t] < 0x80,
        decreases n - i,
    {
        if body[i] >= 0x80 {
            assert(!(body@[i as int] < 0x80));
            return false;
        }
        i = i + 1;
    }
    true
}

/// Whether `body` contains the byte `x`.
fn has_byte_exec(body: &[u8], x: u8) -> (r: bool)
    ensures
        r == has_byte(body@, x),
{
    let n = body.len();
    let mut i: usize = 0;
    while i < n
        invariant
            n == body.len(),
            i <= n,
            forall|t: int| 0 <= t < i ==> #[trigger] body@[t] != x,
        decreases n - i,
    {
        if body[i] == x {
            assert(body@[i as int] == x);
            return true;
        }
        i = i + 1;
    }
    false
}

/// Whether `body` has the byte `x` followed by the byte `y`.
fn has_pair_exec(body: &[u8], x: u8, y: u8) -> (r: bool)
    ensures
        r == has_pair(body@, x, y),
{
    let n = body.len();
    let mut i: usize = 0;
    while i < n
        invariant
            n == body.len(),
            i <= n,
            forall|t: int| 0 <= t < i && t + 1 < n ==> !(#[trigger] body@[t] == x && body@[t + 1] == y),
        decreases n - i,
    {
        if i + 1 < n && body[i] == x && body[i + 1] == y {
            assert(body@[i as int] == x);
            return true;
        }
        i = i + 1;
    }
    false
}

/// Whether `name` occurs somewhere in `body`.
fn has_bytes_exec(body: &[u8], name: &[u8]) -> (r: bool)
    ensures
        r == has_bytes(body@, name@),
{
    let n = body.len();
    let mut i: usize = 0;
    while i <= n
        invariant
            n == body.len(),
            forall|t: int| t < i ==> !#[trigger] bytes_at(body@, t, name@),
        decreases n + 1 - i,
    {
        if bytes_at_exec(body, i, name) {
            return true;
        }
        if i == n {
            assert forall|t: int| !#[trigger] bytes_at(body@, t, name@) by {
                if t > n {
                    assert(!bytes_at(body@, t, name@));
                }
            }
            return false;
        }
        i = i + 1;
    }
    false
}

/// Whether the parser reads `body` as JSON.
fn json_like_exec(body: &[u8]) -> (r: bool)
    ensures
        r == json_like(body@),
{
    let n = body.len();
    let mut i: usize = 0;
    while i < n
        invariant
            n == body.len(),
            i <= n,
            forall|t: int| 0 <= t < i ==> #[trigger] body@[t] != 0x3c && body@[t] != 0x7b,
        decreases n - i,
    {
        if body[i] == 0x7b {
            assert(forall|j: int| 0 <= j < i ==> #[trigger] body@[j] != 0x3c);
            return true;
        }
        if body[i] == 0x3c {
            assert forall|w: int| 0 <= w < n && body@[w] == 0x7b implies !(forall|j: int|
                0 <= j < w ==> #[trigger] body@[j] != 0x3c) by {
                assert(w > i);
                assert(body@[i as int] == 0x3c);
            }
            return false;
        }
        i = i + 1;
    }
    false
}

/// Whether `body` names an `rss` or `RDF` element.
fn rss_like_exec(body: &[u8]) -> (r: bool)
    ensures
        r == rss_like(body@),
{
    let rss: [u8; 3] = [0x72, 0x73, 0x73];
    let rdf: [u8; 3] = [0x52, 0x44, 0x46];
    assert(rss@ =~= rss_bytes());
    assert(rdf@ =~= rdf_bytes());
    let n = body.len();
    let mut i: usize = 1;
    while i < n
        invariant
            n == body.len(),
            1 <= i,
            rss@ == rss_bytes(),
            rdf@ == rdf_bytes(),
            forall|t: int| t < i ==> !#[trigger] element_name_at(body@, t, rss_bytes()),
            forall|t: int| t < i ==> !#[trigger] element_name_at(body@, t, rdf_bytes()),
        decreases n - i,
    {
        let after_open = body[i - 1] == 0x3c || body[i - 1] == 0x3a;
        let is_rss = bytes_at_exec(body, i, &rss);
        let is_rdf = bytes_at_exec(body, i, &rdf);
        if after_open && is_rss {
            assert(element_name_at(body@, i as int, rss_bytes()));
            return true;
        }
        if after_open && is_rdf {
            assert(element_name_at(body@, i as int, rdf_bytes()));
            return true;
        }
        assert(!element_name_at(body@, i as int, rss_bytes()));
        assert(!element_name_at(body@, i as int, rdf_bytes()));
        i = i + 1;
    }
    assert forall|t: int| !#[trigger] element_name_at(body@, t, rss_bytes()) by {
        if t >= n {
            assert(!bytes_at(body@, t, rss_bytes()));
        }
    }
    assert forall|t: int| !#[trigger] element_name_at(body@, t, rdf_bytes()) by {
        if t >= n {
            assert(!bytes_at(body@, t, rdf_bytes()));
        }
    }
    false
}

/// Whether `body` may be handed to the feed parser (see
/// `feed_body_parser_safe`).
pub fn feed_body_is_parser_safe(body: &[u8]) -> (r: bool)
    ensures
        r == feed_body_parser_safe(body@),
{
    let n = body.len();
    let time: [u8; 4] = [0x74, 0x69, 0x6d, 0x65];
    let start: [u8; 5] = [0x73, 0x74, 0x61, 0x72, 0x74];
    let end: [u8; 3] = [0x65, 0x6e, 0x64];
    assert(time@ =~= time_bytes());
    assert(start@ =~= start_bytes());
    assert(end@ =~= end_bytes());
    let mut i: usize = 0;
    while i < n
        invariant
            n == body.len(),
            i <= n,
            time@ == time_bytes(),
            start@ == start_bytes(),
            end@ == end_bytes(),
            forall|t: int| 0 <= t < i ==> #[trigger] body@[t] != 0 && body@[t] != 0x1b,
            forall|t: int| 0 <= t < i ==> #[trigger] attr_value_plain(body@, t, time_bytes()),
            forall|t: int| 0 <= t < i ==> #[trigger] attr_value_plain(body@, t, start_bytes()),
            forall|t: int| 0 <= t < i ==> #[trigger] attr_value_plain(body@, t, end_bytes()),
        decreases n - i,
    {
        if body[i] == 0 || body[i] == 0x1b {
            assert(!(body@[i as int] != 0 && body@[i as int] != 0x1b));
            return false;
        }
        let ok_time = attr_value_plain_exec(body, i, &time);
        let ok_start = attr_value_plain_exec(body, i, &start);
        let ok_end = attr_value_plain_exec(body, i, &end);
        if !(ok_time && ok_start && ok_end) {
            return false;
        }
        assert(attr_value_plain(body@, i as int, time_bytes()));
        assert(attr_value_plain(body@, i as int, start_bytes()));
        assert(attr_value_plain(body@, i as int, end_bytes()));
        i = i + 1;
    }
    assert forall|t: int|
        attr_value_plain(body@, t, time_bytes()) && attr_value_plain(body@, t, start_bytes()) && attr_value_plain(
            body@,
            t,
            end_bytes(),
        ) by {
        if !(0 <= t < n) {
            assert(!bytes_at(body@, t, time_bytes()));
            assert(!bytes_at(body@, t, start_bytes()));
            assert(!bytes_at(body@, t, end_bytes()));
        }
    }
    if json_like_exec(body) && (has_pair_exec(body, 0x5c, 0x75) || (!all_ascii_exec(body) && has_byte_exec(
        body,
        0x40,
    ))) {
        return false;
    }
    if rss_like_exec(body) {
        let ascii = all_ascii_exec(body);
        let refs = has_pair_exec(body, 0x26, 0x23);
        if refs || (!ascii && has_byte_exec(body, 0x40)) {
            return false;
        }
        let duration: [u8; 8] = [0x64, 0x75, 0x72, 0x61, 0x74, 0x69, 0x6f, 0x6e];
        assert(duration@ =~= duration_bytes());
        if has_bytes_exec(body, &duration) && (!ascii || has_pair_exec(body, 0x3c, 0x21) || !short_runs_exec(
            body,
            0,
            n,
        )) {
            return false;
        }
    }
    true
}

} // verus!
