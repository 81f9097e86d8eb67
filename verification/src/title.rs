//! Title screening: the template check, the banned patterns, and the
//! removal of bracketed decorations such as `(Official Video)`.

use vstd::prelude::*;
use crate::structs::{VideoError, VideoInfo};

verus! {

#[verifier::external_type_specification]
#[verifier::external_body]
pub struct ExRegex(regex::Regex);

/// Whether `pattern` is a regular expression that `regex::Regex::new` accepts.
pub uninterp spec fn regex_valid(pattern: Seq<char>) -> bool;

/// Whether the regular expression `pattern` matches somewhere in `text`
/// (`Regex::is_match`).
pub uninterp spec fn regex_is_match(pattern: Seq<char>, text: Seq<char>) -> bool;

/// The texts of the successive non-overlapping matches of `pattern` in
/// `text`, from the left (`Regex::find_iter`).
pub uninterp spec fn regex_matches(pattern: Seq<char>, text: Seq<char>) -> Seq<Seq<char>>;

/// The pieces of `text` between the successive matches of `pattern`
/// (`Regex::split`).
pub uninterp spec fn regex_gaps(pattern: Seq<char>, text: Seq<char>) -> Seq<Seq<char>>;

/// The pieces `gaps[0] + mids[0] + gaps[1] + ... + mids[n-1] + gaps[n]`.
pub open spec fn weave(gaps: Seq<Seq<char>>, mids: Seq<Seq<char>>) -> Seq<char>
    decreases mids.len(),
{
    if gaps.len() == 0 {
        Seq::empty()
    } else if mids.len() == 0 {
        gaps[0]
    } else {
        weave(gaps.drop_last(), mids.drop_last()) + mids.last() + gaps.last()
    }
}

/// A compiled regular expression together with its source text.
pub struct Pattern {
    source: String,
    compiled: regex::Regex,
}

impl View for Pattern {
    type V = Seq<char>;

    closed spec fn view(&self) -> Seq<char> {
        self.source@
    }
}

/// `regex::Regex::new`: compiles `source`, which succeeds exactly on the
/// patterns the crate accepts.
#[verifier::external_body]
fn compile_regex(source: &str) -> (r: Option<regex::Regex>)
    ensures
        r is Some <==> regex_valid(source@),
{
    regex::Regex::new(source).ok()
}

/// `Regex::is_match` on the pattern's compiled form: whether it matches
/// anywhere in `text`.
#[verifier::external_body]
fn regex_is_match_exec(p: &Pattern, text: &str) -> (r: bool)
    ensures
        r == regex_is_match(p@, text@),
{
    p.compiled.is_match(text)
}

impl Pattern {
    /// Compiles `source`; `None` where it is not a valid regular expression.
    pub fn new(source: &str) -> (r: Option<Pattern>)
        ensures
            r is Some <==> regex_valid(source@),
            r matches Some(p) ==> p@ == source@,
    {
        match compile_regex(source) {
            Some(compiled) => Some(Pattern { source: source.to_string(), compiled }),
            None => None,
        }
    }

    /// Whether the pattern matches somewhere in `text`.
    pub fn is_match(&self, text: &str) -> (r: bool)
        ensures
            r == regex_is_match(self@, text@),
    {
        regex_is_match_exec(self, text)
    }
}

/// The sources of a list of patterns.
pub open spec fn sources(v: Seq<Pattern>) -> Seq<Seq<char>> {
    v.map_values(|p: Pattern| p@)
}

/// Whether one of `patterns` matches somewhere in `text`.
pub open spec fn any_match(patterns: Seq<Seq<char>>, text: Seq<char>) -> bool {
    exists|i: int| 0 <= i < patterns.len() && regex_is_match(#[trigger] patterns[i], text)
}

/// The matches, with each one that a removal pattern matches blanked out.
pub open spec fn kept(matches: Seq<Seq<char>>, removed: Seq<Seq<char>>) -> Seq<Seq<char>> {
    Seq::new(matches.len(), |k: int| if any_match(removed, matches[k]) { Seq::empty() } else { matches[k] })
}

/// `text` with every match of `bracket` that a removal pattern matches
/// deleted, and every other match left as it was.
pub open spec fn strip_bracket(text: Seq<char>, bracket: Seq<char>, removed: Seq<Seq<char>>) -> Seq<char> {
    weave(regex_gaps(bracket, text), kept(regex_matches(bracket, text), removed))
}

/// `text` passed through `strip_bracket` for each bracket pattern in turn.
pub open spec fn strip_all(text: Seq<char>, brackets: Seq<Seq<char>>, removed: Seq<Seq<char>>) -> Seq<char>
    decreases brackets.len(),
{
    if brackets.len() == 0 {
        text
    } else {
        strip_all(strip_bracket(text, brackets[0], removed), brackets.drop_first(), removed)
    }
}

/// The patterns that screen titles, by their sources.
pub struct SpecRegexes {
    pub title: Seq<char>,
    pub brackets: Seq<Seq<char>>,
    pub banned: Seq<Seq<char>>,
    pub removed: Seq<Seq<char>>,
}

/// The patterns that screen titles: the template every title must match,
/// the bracket patterns that find decorations, the banned patterns that
/// refuse a title, and the removal patterns that say which decorations go.
pub struct Regexes {
    pub title_regex: Pattern,
    pub bracket_regexes: Vec<Pattern>,
    pub banned_regexes: Vec<Pattern>,
    pub removed_regexes: Vec<Pattern>,
}

impl View for Regexes {
    type V = SpecRegexes;

    open spec fn view(&self) -> SpecRegexes {
        SpecRegexes {
            title: self.title_regex@,
            brackets: sources(self.bracket_regexes@),
            banned: sources(self.banned_regexes@),
            removed: sources(self.removed_regexes@),
        }
    }
}

/// The screened title: `None` where the title does not match the template
/// or matches a banned pattern, else the title with its removable
/// decorations deleted.
pub open spec fn screened_title(title: Seq<char>, rx: SpecRegexes) -> Option<Seq<char>> {
    if !regex_is_match(rx.title, title) || any_match(rx.banned, title) {
        None
    } else {
        Some(strip_all(title, rx.brackets, rx.removed))
    }
}

/// A title that the template does not match is refused, whatever the
/// other patterns say.
pub proof fn law_template_required(title: Seq<char>, rx: SpecRegexes)
    requires
        !regex_is_match(rx.title, title),
    ensures
        screened_title(title, rx) is None,
{
}

/// A title passes screening exactly when the template matches it and no
/// banned pattern does; what comes out is the title with its decorations
/// stripped.
pub proof fn law_screening_passes(title: Seq<char>, rx: SpecRegexes)
    ensures
        screened_title(title, rx) is Some <==> (regex_is_match(rx.title, title) && !any_match(rx.banned, title)),
        screened_title(title, rx) matches Some(t) ==> t == strip_all(title, rx.brackets, rx.removed),
{
}

/// Whether one of `patterns` matches somewhere in `text`.
pub fn any_pattern_matches(patterns: &Vec<Pattern>, text: &str) -> (r: bool)
    ensures
        r == any_match(sources(patterns@), text@),
{
    let n = patterns.len();
    let mut i: usize = 0;
    while i < n
        invariant
            n == patterns.len(),
            i <= n,
            forall|k: int| 0 <= k < i ==> !regex_is_match(#[trigger] sources(patterns@)[k], text@),
        decreases n - i,
    {
        if patterns[i].is_match(text) {
            assert(sources(patterns@)[i as int] == patterns@[i as int]@);
            return true;
        }
        i = i + 1;
    }
    false
}

/// The kept matches are the matches themselves, each blanked out where a
/// removal pattern matches it and left whole otherwise, so each is no
/// longer than its match; with no removal patterns, or
/// where no match is removable, they are the matches.
pub proof fn lemma_kept(matches: Seq<Seq<char>>, removed: Seq<Seq<char>>)
    ensures
        kept(matches, removed).len() == matches.len(),
        forall|k: int| 0 <= k < matches.len() ==> (#[trigger] kept(matches, removed)[k]).len() <= matches[k].len(),
        forall|k: int| 0 <= k < matches.len() && any_match(removed, matches[k]) ==> (#[trigger] kept(
            matches,
            removed,
        )[k]).len() == 0,
        forall|k: int| 0 <= k < matches.len() && !any_match(removed, matches[k]) ==> #[trigger] kept(
            matches,
            removed,
        )[k] == matches[k],
        (removed.len() == 0 || forall|k: int| 0 <= k < matches.len() ==> !any_match(removed, #[trigger] matches[k]))
            ==> kept(matches, removed) == matches,
{
    if removed.len() == 0 || forall|k: int| 0 <= k < matches.len() ==> !any_match(removed, #[trigger] matches[k]) {
        assert(kept(matches, removed) =~= matches);
    }
}

/// What a match of a bracket pattern is replaced with: nothing where one of
/// `removed` matches it, else the match itself.
pub fn replacement_for(removed: &Vec<Pattern>, piece: &str) -> (r: String)
    ensures
        r@ == (if any_match(sources(removed@), piece@) { Seq::<char>::empty() } else { piece@ }),
{
    if any_pattern_matches(removed, piece) {
        String::new()
    } else {
        piece.to_string()
    }
}

/// `Regex::replace_all` with the replacer `replacement_for(removed, _)`.
/// As the crate's source shows, it walks the matches that `find_iter`
/// yields, copies the text between them (the pieces that `split` yields
/// around the same matches) and puts the replacer's string in place of each
/// match: the result is those pieces woven with the replacements. Since
/// each replacement is empty or the match itself, the result is no longer
/// than the text, and it is the text where every match is kept. Where the
/// pattern does not match, the text comes back as it is.
#[verifier::external_body]
fn regex_replace_all(p: &Pattern, text: &str, removed: &Vec<Pattern>) -> (r: String)
    ensures
        r@ == weave(regex_gaps(p@, text@), kept(regex_matches(p@, text@), sources(removed@))),
        r@.len() <= text@.len(),
        kept(regex_matches(p@, text@), sources(removed@)) == regex_matches(p@, text@) ==> r@ == text@,
        !regex_is_match(p@, text@) ==> r@ == text@,
{
    p.compiled.replace_all(text, |caps: &regex::Captures| replacement_for(removed, caps.get_match().as_str())).into_owned()
}

/// `text` with every match of `bracket` that one of `removed` matches deleted.
pub fn strip_bracket_matches(text: &str, bracket: &Pattern, removed: &Vec<Pattern>) -> (r: String)
    ensures
        r@ == strip_bracket(text@, bracket@, sources(removed@)),
        (forall|k: int| 0 <= k < regex_matches(bracket@, text@).len() ==> !any_match(
            sources(removed@),
            #[trigger] regex_matches(bracket@, text@)[k],
        )) ==> r@ == text@,
        r@.len() <= text@.len(),
        (removed@.len() == 0 || !regex_is_match(bracket@, text@)) ==> r@ == text@,
{
    let r = regex_replace_all(bracket, text, removed);
    proof {
        lemma_kept(regex_matches(bracket@, text@), sources(removed@));
    }
    r
}

/// `text` with the removable decorations found by each bracket pattern, in
/// turn, deleted.
pub fn strip_decorations(text: &str, brackets: &Vec<Pattern>, removed: &Vec<Pattern>) -> (r: String)
    ensures
        r@ == strip_all(text@, sources(brackets@), sources(removed@)),
        r@.len() <= text@.len(),
        (removed@.len() == 0 || forall|k: int| 0 <= k < brackets@.len() ==> !regex_is_match(
            #[trigger] sources(brackets@)[k],
            text@,
        )) ==> r@ == text@,
{
    let n = brackets.len();
    let mut cur = text.to_string();
    let mut k: usize = 0;
    assert(sources(brackets@).skip(0) =~= sources(brackets@));
    while k < n
        invariant
            n == brackets.len(),
            k <= n,
            strip_all(text@, sources(brackets@), sources(removed@)) == strip_all(
                cur@,
                sources(brackets@).skip(k as int),
                sources(removed@),
            ),
            cur@.len() <= text@.len(),
            (removed@.len() == 0 || forall|t: int| 0 <= t < brackets@.len() ==> !regex_is_match(
                #[trigger] sources(brackets@)[t],
                text@,
            )) ==> cur@ == text@,
        decreases n - k,
    {
        let next = strip_bracket_matches(cur.as_str(), &brackets[k], removed);
        proof {
            assert(sources(brackets@)[k as int] == brackets@[k as int]@);
            let rest = sources(brackets@).skip(k as int);
            assert(rest[0] == brackets@[k as int]@);
            assert(rest.drop_first() =~= sources(brackets@).skip(k + 1));
        }
        cur = next;
        k = k + 1;
    }
    cur
}

/// Screens a video's title: refuses it where it does not match the
/// template or matches a banned pattern, else returns it with its
/// removable decorations deleted.
pub fn validate_title(video_info: &VideoInfo, regexes: &Regexes) -> (r: Result<String, VideoError>)
    ensures
        r is Ok <==> screened_title(video_info.title@, regexes@) is Some,
        r matches Ok(t) ==> Some(t@) == screened_title(video_info.title@, regexes@),
        r matches Err(e) ==> e is TitleValidationFailed && e.video() == video_info@,
        !regex_is_match(regexes.title_regex@, video_info.title@) ==> r is Err,
        any_match(sources(regexes.banned_regexes@), video_info.title@) ==> r is Err,
        r matches Ok(t) ==> t@.len() <= video_info.title@.len(),
        (regexes.removed_regexes@.len() == 0 || forall|k: int| 0 <= k < regexes.bracket_regexes@.len()
            ==> !regex_is_match(#[trigger] sources(regexes.bracket_regexes@)[k], video_info.title@))
            ==> (r matches Ok(t) ==> t@ == video_info.title@),
{
    let title = video_info.title.as_str();
    if !regexes.title_regex.is_match(title) {
        return Err(VideoError::TitleValidationFailed(video_info.duplicate()));
    }
    if any_pattern_matches(&regexes.banned_regexes, title) {
        return Err(VideoError::TitleValidationFailed(video_info.duplicate()));
    }
    Ok(strip_decorations(title, &regexes.bracket_regexes, &regexes.removed_regexes))
}

} // verus!
