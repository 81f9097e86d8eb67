//! The record of videos already posted: the in-memory sets of IDs and
//! titles, and the `id|title` log file they are kept in between runs.

use vstd::prelude::*;
use crate::structs::VideoInfo;
use crate::text::{append_str, find, find_from, find_chars, push_char, split_once, string_of_range, trim_chars, trimmed, chars_of};

verus! {

/// A set of strings without repetitions (the IDs, or the titles, seen so far).
pub struct SeenSet {
    items: Vec<String>,
}

impl View for SeenSet {
    type V = Set<Seq<char>>;

    closed spec fn view(&self) -> Set<Seq<char>> {
        self.items@.map_values(|s: String| s@).to_set()
    }
}

impl SeenSet {
    #[verifier::type_invariant]
    closed spec fn no_repeats(self) -> bool {
        self.items@.map_values(|s: String| s@).no_duplicates()
    }

    /// The empty set.
    pub fn new() -> (r: SeenSet)
        ensures
            r@ == Set::<Seq<char>>::empty(),
    {
        let r = SeenSet { items: Vec::new() };
        assert(r.items@.map_values(|s: String| s@) =~= Seq::<Seq<char>>::empty());
        r
    }

    /// Whether `s` is in the set.
    pub fn contains(&self, s: &str) -> (r: bool)
        ensures
            r == self@.contains(s@),
    {
        let ghost vs = self.items@.map_values(|x: String| x@);
        let n = self.items.len();
        let mut i: usize = 0;
        while i < n
            invariant
                n == self.items.len() == vs.len(),
                vs == self.items@.map_values(|x: String| x@),
                i <= n,
                forall|k: int| 0 <= k < i ==> vs[k] != s@,
            decreases n - i,
        {
            assert(vs[i as int] == self.items@[i as int]@);
            if crate::text::str_eq(self.items[i].as_str(), s) {
                assert(vs.contains(s@));
                return true;
            }
            i = i + 1;
        }
        assert(!vs.contains(s@));
        false
    }

    /// Adds `s`; returns whether it was not there before.
    pub fn insert(&mut self, s: String) -> (r: bool)
        ensures
            final(self)@ == old(self)@.insert(s@),
            r == !old(self)@.contains(s@),
    {
        proof {
            use_type_invariant(&*self);
        }
        if self.contains(s.as_str()) {
            proof {
                assert(self@.insert(s@) =~= self@);
            }
            return false;
        }
        let ghost before = self.items@.map_values(|x: String| x@);
        let ghost sv = s@;
        let mut items = Vec::new();
        std::mem::swap(&mut items, &mut self.items);
        items.push(s);
        proof {
            let after = items@.map_values(|x: String| x@);
            assert(after =~= before.push(sv));
            assert(before.push(sv) =~= before + seq![sv]);
            Seq::lemma_to_set_insert_commutes(before, sv);
            assert(after.to_set() =~= before.to_set().insert(sv));
            assert(after.no_duplicates()) by {
                assert forall|i: int, j: int| 0 <= i < after.len() && 0 <= j < after.len() && i != j implies after[i] != after[j] by {
                    if i < before.len() && j < before.len() {
                        assert(after[i] == before[i] && after[j] == before[j]);
                    } else if i == before.len() {
                        assert(after[i] == sv);
                        assert(before.contains(after[j]));
                    } else {
                        assert(after[j] == sv);
                        assert(before.contains(after[i]));
                    }
                }
            }
        }
        self.items = items;
        true
    }

    /// The number of strings in the set.
    pub fn len(&self) -> (r: usize)
        ensures
            r == self@.len(),
    {
        proof {
            use_type_invariant(self);
            self.items@.map_values(|s: String| s@).unique_seq_to_set();
        }
        self.items.len()
    }
}

/// The lines of `s`: the pieces between its newlines, the first of them
/// continuing `cur`.
pub open spec fn lines_from(s: Seq<char>, cur: Seq<char>) -> Seq<Seq<char>>
    decreases s.len(),
{
    if s.len() == 0 {
        seq![cur]
    } else if s[0] == '\n' {
        seq![cur] + lines_from(s.drop_first(), Seq::empty())
    } else {
        lines_from(s.drop_first(), cur.push(s[0]))
    }
}

/// The lines of `s`, split at its newlines.
pub open spec fn log_lines(s: Seq<char>) -> Seq<Seq<char>> {
    lines_from(s, Seq::empty())
}

/// Whether a log line holds nothing but whitespace.
pub open spec fn is_blank(line: Seq<char>) -> bool {
    trimmed(line).len() == 0
}

/// The `(id, title)` record of a log line: the trimmed line split at its
/// first `|`.
pub open spec fn line_record(line: Seq<char>) -> Option<(Seq<char>, Seq<char>)> {
    split_once(trimmed(line), seq!['|'])
}

/// The records of the non-blank lines; `None` where one of them has no `|`.
pub open spec fn records(lines: Seq<Seq<char>>) -> Option<Seq<(Seq<char>, Seq<char>)>>
    decreases lines.len(),
{
    if lines.len() == 0 {
        Some(Seq::empty())
    } else {
        let rest = records(lines.drop_first());
        if is_blank(lines[0]) {
            rest
        } else {
            match (line_record(lines[0]), rest) {
                (Some(p), Some(r)) => Some(seq![p] + r),
                _ => None,
            }
        }
    }
}

/// The records of a seen-log file's contents; `None` where a non-blank line
/// has no `|` (a corrupted log).
pub open spec fn parsed_seen_log(content: Seq<char>) -> Option<Seq<(Seq<char>, Seq<char>)>> {
    records(log_lines(content))
}

/// The log line that records a video: `id|title` and a newline.
pub open spec fn seen_line(id: Seq<char>, title: Seq<char>) -> Seq<char> {
    id + seq!['|'] + title + seq!['\n']
}

/// `prefix` followed by the records in `rest`, or `None` with it.
pub open spec fn prepend(
    prefix: Seq<(Seq<char>, Seq<char>)>,
    rest: Option<Seq<(Seq<char>, Seq<char>)>>,
) -> Option<Seq<(Seq<char>, Seq<char>)>> {
    match rest {
        Some(r) => Some(prefix + r),
        None => None,
    }
}

proof fn lemma_records_cons(x: Seq<char>, ls: Seq<Seq<char>>)
    ensures
        records(seq![x] + ls) == if is_blank(x) {
            records(ls)
        } else {
            match (line_record(x), records(ls)) {
                (Some(p), Some(r)) => Some(seq![p] + r),
                _ => None,
            }
        },
{
    assert((seq![x] + ls).drop_first() =~= ls);
}

/// The log line that records `info`: `id|title` and a newline.
pub fn seen_log_line(info: &VideoInfo) -> (r: String)
    ensures
        r@ == seen_line(info.id@, info.title@),
{
    let mut r = String::new();
    append_str(&mut r, info.id.as_str());
    push_char(&mut r, '|');
    append_str(&mut r, info.title.as_str());
    push_char(&mut r, '\n');
    assert(r@ =~= seen_line(info.id@, info.title@));
    r
}

/// What a log line holds: `Some(None)` for a blank line, `Some(Some(record))`
/// for a record, `None` for a non-blank line without `|`.
fn read_line(line: &Vec<char>) -> (r: Option<Option<(String, String)>>)
    ensures
        match r {
            Some(None) => is_blank(line@),
            Some(Some((a, b))) => !is_blank(line@) && line_record(line@) == Some((a@, b@)),
            None => !is_blank(line@) && line_record(line@) is None,
        },
{
    let t = trim_chars(line);
    if t.len() == 0 {
        return Some(None);
    }
    let bar = vec!['|'];
    assert(bar@ =~= seq!['|']);
    match find_chars(&t, &bar) {
        Some(i) => {
            proof {
                crate::text::lemma_find_from(t@, bar@, 0);
                assert(find(t@, bar@) == Some(i as int));
            }
            assert(i + bar.len() <= t.len());
            let a = string_of_range(&t, 0, i);
            let b = string_of_range(&t, i + 1, t.len());
            assert(a@ =~= t@.take(i as int));
            assert(b@ =~= t@.skip(i + 1));
            Some(Some((a, b)))
        },
        None => None,
    }
}

/// The records of a seen-log file's contents, in order; `None` where a
/// non-blank line has no `|`.
pub fn parse_seen_log(content: &str) -> (r: Option<Vec<(String, String)>>)
    ensures
        match r {
            Some(v) => parsed_seen_log(content@) == Some(v@.map_values(|p: (String, String)| (p.0@, p.1@))),
            None => parsed_seen_log(content@) is None,
        },
{
    let cs = chars_of(content);
    let n = cs.len();
    let mut out: Vec<(String, String)> = Vec::new();
    let mut cur: Vec<char> = Vec::new();
    let mut i: usize = 0;
    assert(cs@.skip(0) =~= cs@);
    while i < n
        invariant
            n == cs.len(),
            cs@ == content@,
            i <= n,
            parsed_seen_log(content@) == prepend(
                out@.map_values(|p: (String, String)| (p.0@, p.1@)),
                records(lines_from(cs@.skip(i as int), cur@)),
            ),
        decreases n - i,
    {
        let c = cs[i];
        let ghost rest = cs@.skip(i as int);
        assert(rest[0] == c);
        assert(rest.drop_first() =~= cs@.skip(i + 1));
        if c == '\n' {
            proof {
                lemma_records_cons(cur@, lines_from(cs@.skip(i + 1), Seq::empty()));
            }
            let ghost before = out@.map_values(|p: (String, String)| (p.0@, p.1@));
            match read_line(&cur) {
                Some(None) => {},
                Some(Some(p)) => {
                    let ghost pv = (p.0@, p.1@);
                    out.push(p);
                    assert(out@.map_values(|p: (String, String)| (p.0@, p.1@)) =~= before + seq![pv]);
                    assert(before + (seq![pv] + records(lines_from(cs@.skip(i + 1), Seq::empty()))->0)
                        =~= before + seq![pv] + records(lines_from(cs@.skip(i + 1), Seq::empty()))->0);
                },
                None => {
                    return None;
                },
            }
            cur = Vec::new();
        } else {
            cur.push(c);
        }
        i = i + 1;
    }
    proof {
        assert(cs@.skip(n as int) =~= Seq::<char>::empty());
        lemma_records_cons(cur@, Seq::empty());
        assert(seq![cur@] + Seq::<Seq<char>>::empty() =~= seq![cur@]);
        assert(records(Seq::<Seq<char>>::empty()) == Some(Seq::<(Seq<char>, Seq<char>)>::empty()));
    }
    let ghost before = out@.map_values(|p: (String, String)| (p.0@, p.1@));
    match read_line(&cur) {
        Some(None) => {
            assert(before + Seq::<(Seq<char>, Seq<char>)>::empty() =~= before);
        },
        Some(Some(p)) => {
            let ghost pv = (p.0@, p.1@);
            out.push(p);
            assert(out@.map_values(|p: (String, String)| (p.0@, p.1@)) =~= before + (seq![pv] + Seq::<(Seq<char>, Seq<char>)>::empty()));
        },
        None => {
            return None;
        },
    }
    Some(out)
}

/// The IDs of a list of records.
pub open spec fn record_ids(rs: Seq<(Seq<char>, Seq<char>)>) -> Set<Seq<char>> {
    rs.map_values(|p: (Seq<char>, Seq<char>)| p.0).to_set()
}

/// The titles of a list of records.
pub open spec fn record_titles(rs: Seq<(Seq<char>, Seq<char>)>) -> Set<Seq<char>> {
    rs.map_values(|p: (Seq<char>, Seq<char>)| p.1).to_set()
}

/// Every record counts and nothing else does: an ID is among the records'
/// IDs exactly when some record has it, and likewise for titles.
pub proof fn law_record_sets_hold_every_record(rs: Seq<(Seq<char>, Seq<char>)>)
    ensures
        forall|x: Seq<char>| #[trigger] record_ids(rs).contains(x) <==> exists|k: int| 0 <= k < rs.len() && rs[k].0 == x,
        forall|x: Seq<char>| #[trigger] record_titles(rs).contains(x) <==> exists|k: int| 0 <= k < rs.len() && rs[k].1
            == x,
{
    let a = rs.map_values(|p: (Seq<char>, Seq<char>)| p.0);
    let b = rs.map_values(|p: (Seq<char>, Seq<char>)| p.1);
    assert forall|x: Seq<char>| #[trigger] record_ids(rs).contains(x) <==> exists|k: int| 0 <= k < rs.len() && rs[k].0 == x by {
        if record_ids(rs).contains(x) {
            assert(a.contains(x));
            let k = choose|k: int| 0 <= k < a.len() && a[k] == x;
            assert(rs[k].0 == x);
        }
        if exists|k: int| 0 <= k < rs.len() && rs[k].0 == x {
            let k = choose|k: int| 0 <= k < rs.len() && rs[k].0 == x;
            assert(a[k] == x);
            assert(a.contains(x));
        }
    }
    assert forall|x: Seq<char>| #[trigger] record_titles(rs).contains(x) <==> exists|k: int| 0 <= k < rs.len() && rs[k].1 == x by {
        if record_titles(rs).contains(x) {
            assert(b.contains(x));
            let k = choose|k: int| 0 <= k < b.len() && b[k] == x;
            assert(rs[k].1 == x);
        }
        if exists|k: int| 0 <= k < rs.len() && rs[k].1 == x {
            let k = choose|k: int| 0 <= k < rs.len() && rs[k].1 == x;
            assert(b[k] == x);
            assert(b.contains(x));
        }
    }
}

/// The sets of IDs and titles recorded in a seen log: empty where there is
/// no log (`None`), else those of its records. A corrupted log is refused
/// by the requirement; `parse_seen_log` tells whether a log is corrupted.
pub fn load_seen(content: Option<&str>) -> (r: (SeenSet, SeenSet))
    requires
        content matches Some(c) ==> parsed_seen_log(c@) is Some,
    ensures
        match content {
            Some(c) => r.0@ == record_ids(parsed_seen_log(c@)->0) && r.1@ == record_titles(
                parsed_seen_log(c@)->0,
            ),
            None => r.0@ == Set::<Seq<char>>::empty() && r.1@ == Set::<Seq<char>>::empty(),
        },
        content matches Some(c) ==> forall|k: int|
            0 <= k < parsed_seen_log(c@)->0.len() ==> r.0@.contains(#[trigger] parsed_seen_log(c@)->0[k].0)
                && r.1@.contains(parsed_seen_log(c@)->0[k].1),
        content matches Some(c) ==> forall|x: Seq<char>| #[trigger] r.0@.contains(x) ==> exists|k: int|
            0 <= k < parsed_seen_log(c@)->0.len() && parsed_seen_log(c@)->0[k].0 == x,
        content matches Some(c) ==> forall|x: Seq<char>| #[trigger] r.1@.contains(x) ==> exists|k: int|
            0 <= k < parsed_seen_log(c@)->0.len() && parsed_seen_log(c@)->0[k].1 == x,
{
    proof {
        if let Some(c) = content {
            law_record_sets_hold_every_record(parsed_seen_log(c@)->0);
        }
    }
    let mut ids = SeenSet::new();
    let mut titles = SeenSet::new();
    match content {
        None => (ids, titles),
        Some(c) => {
            let recs = match parse_seen_log(c) {
                Some(v) => v,
                None => {
                    return (ids, titles);
                },
            };
            let ghost rs = recs@.map_values(|p: (String, String)| (p.0@, p.1@));
            let n = recs.len();
            let mut k: usize = 0;
            assert(rs.take(0).map_values(|p: (Seq<char>, Seq<char>)| p.0).to_set() =~= Set::empty());
            assert(rs.take(0).map_values(|p: (Seq<char>, Seq<char>)| p.1).to_set() =~= Set::empty());
            while k < n
                invariant
                    n == recs.len() == rs.len(),
                    rs == recs@.map_values(|p: (String, String)| (p.0@, p.1@)),
                    k <= n,
                    ids@ == record_ids(rs.take(k as int)),
                    titles@ == record_titles(rs.take(k as int)),
                decreases n - k,
            {
                let ghost prev = rs.take(k as int);
                let ghost p = rs[k as int];
                assert(rs.take(k + 1) =~= prev + seq![p]);
                assert((prev + seq![p]).map_values(|p: (Seq<char>, Seq<char>)| p.0) =~= prev.map_values(
                    |p: (Seq<char>, Seq<char>)| p.0,
                ) + seq![p.0]);
                assert((prev + seq![p]).map_values(|p: (Seq<char>, Seq<char>)| p.1) =~= prev.map_values(
                    |p: (Seq<char>, Seq<char>)| p.1,
                ) + seq![p.1]);
                proof {
                    Seq::lemma_to_set_insert_commutes(prev.map_values(|p: (Seq<char>, Seq<char>)| p.0), p.0);
                    Seq::lemma_to_set_insert_commutes(prev.map_values(|p: (Seq<char>, Seq<char>)| p.1), p.1);
                }
                ids.insert(recs[k].0.clone());
                titles.insert(recs[k].1.clone());
                k = k + 1;
            }
            assert(rs.take(n as int) =~= rs);
            (ids, titles)
        },
    }
}

/// Records `video_info` as posted: adds its ID and title to the sets and
/// returns the line that the seen log gets for it.
pub fn record_seen(seen_ids: &mut SeenSet, seen_titles: &mut SeenSet, video_info: &VideoInfo) -> (r: String)
    ensures
        final(seen_ids)@ == old(seen_ids)@.insert(video_info.id@),
        final(seen_titles)@ == old(seen_titles)@.insert(video_info.title@),
        r@ == seen_line(video_info.id@, video_info.title@),
{
    let line = seen_log_line(video_info);
    seen_ids.insert(video_info.id.clone());
    seen_titles.insert(video_info.title.clone());
    line
}

/// The records of two line lists, one after the other.
pub open spec fn join_records(
    a: Option<Seq<(Seq<char>, Seq<char>)>>,
    b: Option<Seq<(Seq<char>, Seq<char>)>>,
) -> Option<Seq<(Seq<char>, Seq<char>)>> {
    match (a, b) {
        (Some(x), Some(y)) => Some(x + y),
        _ => None,
    }
}

proof fn lemma_lines_nonempty(s: Seq<char>, cur: Seq<char>)
    ensures
        lines_from(s, cur).len() >= 1,
    decreases s.len(),
{
    if s.len() > 0 {
        if s[0] == '\n' {
            lemma_lines_nonempty(s.drop_first(), Seq::empty());
        } else {
            lemma_lines_nonempty(s.drop_first(), cur.push(s[0]));
        }
    }
}

proof fn lemma_lines_concat(a: Seq<char>, b: Seq<char>, cur: Seq<char>)
    ensures
        lines_from(a + b, cur) == lines_from(a, cur).drop_last() + lines_from(b, lines_from(a, cur).last()),
    decreases a.len(),
{
    if a.len() == 0 {
        assert(a + b =~= b);
        assert(lines_from(a, cur) == seq![cur]);
        assert(seq![cur].drop_last() + lines_from(b, cur) =~= lines_from(b, cur));
    } else {
        assert((a + b).drop_first() =~= a.drop_first() + b);
        assert((a + b)[0] == a[0]);
        if a[0] == '\n' {
            let l = lines_from(a.drop_first(), Seq::empty());
            lemma_lines_concat(a.drop_first(), b, Seq::empty());
            lemma_lines_nonempty(a.drop_first(), Seq::empty());
            assert((seq![cur] + l).drop_last() =~= seq![cur] + l.drop_last());
            assert((seq![cur] + l).last() == l.last());
        } else {
            lemma_lines_concat(a.drop_first(), b, cur.push(a[0]));
        }
    }
}

proof fn lemma_lines_no_newline(s: Seq<char>, cur: Seq<char>)
    requires
        forall|k: int| 0 <= k < s.len() ==> s[k] != '\n',
    ensures
        lines_from(s, cur) == seq![cur + s],
    decreases s.len(),
{
    if s.len() == 0 {
        assert(cur + s =~= cur);
    } else {
        assert forall|k: int| 0 <= k < s.drop_first().len() implies s.drop_first()[k] != '\n' by {
            assert(s.drop_first()[k] == s[k + 1]);
        }
        lemma_lines_no_newline(s.drop_first(), cur.push(s[0]));
        assert(cur.push(s[0]) + s.drop_first() =~= cur + s);
    }
}

proof fn lemma_records_concat(x: Seq<Seq<char>>, y: Seq<Seq<char>>)
    ensures
        records(x + y) == join_records(records(x), records(y)),
    decreases x.len(),
{
    if x.len() == 0 {
        assert(x + y =~= y);
        match records(y) {
            Some(r) => {
                assert(Seq::<(Seq<char>, Seq<char>)>::empty() + r =~= r);
            },
            None => {},
        }
    } else {
        assert((x + y).drop_first() =~= x.drop_first() + y);
        assert((x + y)[0] == x[0]);
        lemma_records_concat(x.drop_first(), y);
        match (line_record(x[0]), records(x.drop_first()), records(y)) {
            (Some(p), Some(r1), Some(r2)) => {
                assert(seq![p] + (r1 + r2) =~= seq![p] + r1 + r2);
            },
            _ => {},
        }
    }
}

proof fn lemma_find_bar(id: Seq<char>, title: Seq<char>, k: int)
    requires
        forall|i: int| 0 <= i < id.len() ==> id[i] != '|',
        0 <= k <= id.len(),
    ensures
        find_from(id + seq!['|'] + title, seq!['|'], k) == Some(id.len() as int),
    decreases id.len() - k,
{
    let x = id + seq!['|'] + title;
    if k < id.len() {
        assert(x.subrange(k, k + 1)[0] == id[k]);
        lemma_find_bar(id, title, k + 1);
    } else {
        assert(x.subrange(k, k + 1) =~= seq!['|']);
    }
}

/// A record written to the seen log is read back as written: appending the
/// line of `(id, title)` to a log that is empty or ends with a newline adds
/// exactly that record to what the log holds. This needs an ID without `|`,
/// newline or leading whitespace, and a title without newline or trailing
/// whitespace (reading trims each line).
pub proof fn law_seen_log_round_trip(log: Seq<char>, id: Seq<char>, title: Seq<char>)
    requires
        log.len() == 0 || log.last() == '\n',
        forall|i: int| 0 <= i < id.len() ==> id[i] != '|' && id[i] != '\n',
        forall|i: int| 0 <= i < title.len() ==> title[i] != '\n',
        id.len() == 0 || !crate::text::is_white(id[0]),
        title.len() == 0 || !crate::text::is_white(title.last()),
    ensures
        parsed_seen_log(log + seen_line(id, title)) == match parsed_seen_log(log) {
            Some(rs) => Some(rs.push((id, title))),
            None => None,
        },
{
    let x = id + seq!['|'] + title;
    let nl: Seq<char> = seq!['\n'];
    let e: Seq<char> = Seq::empty();
    assert(seen_line(id, title) =~= x + nl);
    assert forall|k: int| 0 <= k < x.len() implies x[k] != '\n' by {
        if k < id.len() {
            assert(x[k] == id[k]);
        } else if k > id.len() {
            assert(x[k] == title[k - id.len() - 1]);
        }
    }
    // The lines of the log: all but the last, then an empty last line.
    let ll = log_lines(log);
    lemma_lines_nonempty(log, e);
    if log.len() > 0 {
        lemma_lines_concat(log.drop_last(), nl, e);
        assert(log.drop_last() + nl =~= log);
        let l0 = lines_from(log.drop_last(), e);
        lemma_lines_nonempty(log.drop_last(), e);
        assert(nl.drop_first() =~= e);
        assert(lines_from(nl, l0.last()) == seq![l0.last()] + lines_from(e, e));
    }
    assert(ll.last() == e);
    // The lines of the new record.
    lemma_lines_concat(x, nl, e);
    lemma_lines_no_newline(x, e);
    assert(e + x =~= x);
    assert(nl.drop_first() =~= e);
    assert(lines_from(nl, x) == seq![x] + lines_from(e, e));
    let lx = lines_from(x + nl, e);
    assert(lx =~= seq![x, e]);
    // The new log's lines.
    lemma_lines_concat(log, x + nl, e);
    assert(log + seen_line(id, title) =~= log + (x + nl));
    assert(log_lines(log + seen_line(id, title)) == ll.drop_last() + lx);
    assert(ll =~= ll.drop_last() + seq![e]);
    lemma_records_concat(ll.drop_last(), seq![e]);
    lemma_records_concat(ll.drop_last(), lx);
    // The blank line adds nothing, the record line adds `(id, title)`.
    assert(trimmed(e) =~= e);
    assert(seq![e].drop_first() =~= Seq::<Seq<char>>::empty());
    assert(records(Seq::<Seq<char>>::empty()) == Some(Seq::<(Seq<char>, Seq<char>)>::empty()));
    assert(is_blank(e));
    assert(seq![e][0] == e);
    assert(records(seq![e]) == Some(Seq::<(Seq<char>, Seq<char>)>::empty()));
    if id.len() == 0 {
        assert(x[0] == '|');
    } else {
        assert(x[0] == id[0]);
    }
    assert(!crate::text::is_white(x[0]));
    assert(crate::text::trim_start(x) == x);
    if title.len() == 0 {
        assert(x.last() == '|');
    } else {
        assert(x.last() == title.last());
    }
    assert(!crate::text::is_white(x.last()));
    assert(crate::text::trim_end(x) == x);
    assert(trimmed(x) == x);
    lemma_find_bar(id, title, 0);
    assert(x.take(id.len() as int) =~= id);
    assert(x.skip(id.len() + 1int) =~= title);
    assert(line_record(x) == Some((id, title)));
    assert(!is_blank(x));
    assert(lx.drop_first() =~= seq![e]);
    assert(records(lx) == Some(seq![(id, title)]));
    match records(ll.drop_last()) {
        Some(r) => {
            assert(r + Seq::<(Seq<char>, Seq<char>)>::empty() =~= r);
            assert(r + seq![(id, title)] =~= r.push((id, title)));
        },
        None => {},
    }
}

/// A video recorded in the log is known again after a restart: once its
/// line is appended to a readable log (empty or ending with a newline),
/// loading the log yields its ID among the seen IDs and its title among the
/// seen titles. The ID and title must survive the reading's trimming and
/// splitting, as in `law_seen_log_round_trip`.
pub proof fn law_recorded_video_survives_reload(log: Seq<char>, id: Seq<char>, title: Seq<char>)
    requires
        parsed_seen_log(log) is Some,
        log.len() == 0 || log.last() == '\n',
        forall|i: int| 0 <= i < id.len() ==> id[i] != '|' && id[i] != '\n',
        forall|i: int| 0 <= i < title.len() ==> title[i] != '\n',
        id.len() == 0 || !crate::text::is_white(id[0]),
        title.len() == 0 || !crate::text::is_white(title.last()),
    ensures
        parsed_seen_log(log + seen_line(id, title)) is Some,
        record_ids(parsed_seen_log(log + seen_line(id, title))->0).contains(id),
        record_titles(parsed_seen_log(log + seen_line(id, title))->0).contains(title),
{
    law_seen_log_round_trip(log, id, title);
    let rs = parsed_seen_log(log)->0.push((id, title));
    let k = rs.len() - 1;
    assert(rs[k] == (id, title));
    assert(rs.map_values(|p: (Seq<char>, Seq<char>)| p.0)[k] == id);
    assert(rs.map_values(|p: (Seq<char>, Seq<char>)| p.1)[k] == title);
}

} // verus!
