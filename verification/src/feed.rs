//! A channel's feed: its decoding, and the newest video that it announces.

use vstd::prelude::*;
use crate::errors::{FeedError, FeedFault};
use crate::structs::{SpecVideo, VideoInfo};
use crate::text::{append_str, decimal, push_decimal, str_eq};
use crate::feed_guard::feed_body_parser_safe;

verus! {

/// The abstract value of a [`FeedLink`].
pub struct SpecLink {
    pub rel: Option<Seq<char>>,
    pub href: Seq<char>,
}

/// The abstract value of a [`FeedEntry`].
pub struct SpecEntry {
    pub title: Option<Seq<char>>,
    pub links: Seq<SpecLink>,
}

/// The abstract value of a [`FeedDocument`].
pub struct SpecFeed {
    pub title: Option<Seq<char>>,
    pub entries: Seq<SpecEntry>,
}

/// The view of an optional string.
pub open spec fn opt_view(o: Option<String>) -> Option<Seq<char>> {
    match o {
        Some(s) => Some(s@),
        None => None,
    }
}

/// A link of a feed entry: its relation and its target.
pub struct FeedLink {
    pub rel: Option<String>,
    pub href: String,
}

impl View for FeedLink {
    type V = SpecLink;

    open spec fn view(&self) -> SpecLink {
        SpecLink { rel: opt_view(self.rel), href: self.href@ }
    }
}

/// An entry of a feed: its title and its links.
pub struct FeedEntry {
    pub title: Option<String>,
    pub links: Vec<FeedLink>,
}

impl View for FeedEntry {
    type V = SpecEntry;

    open spec fn view(&self) -> SpecEntry {
        SpecEntry { title: opt_view(self.title), links: self.links@.map_values(|l: FeedLink| l@) }
    }
}

/// What the library reads of a parsed feed: the feed's title and its
/// entries, newest first as the feed lists them.
pub struct FeedDocument {
    pub title: Option<String>,
    pub entries: Vec<FeedEntry>,
}

impl View for FeedDocument {
    type V = SpecFeed;

    open spec fn view(&self) -> SpecFeed {
        SpecFeed { title: opt_view(self.title), entries: self.entries@.map_values(|e: FeedEntry| e@) }
    }
}

/// The titles and links of the feed that `feed_rs::parser::parse` reads
/// from `body`; `None` where it refuses the body.
pub uninterp spec fn parsed_feed(body: Seq<u8>) -> Option<SpecFeed>;

/// `feed_rs::parser::parse` on a feed body. Of the feed it keeps the
/// feed's title text, and for each entry its title text and its links'
/// `rel` and `href`, moved over unchanged. The parse error is handed back
/// as it came. Bodies on which feed-rs can panic are left out (see
/// `feed_body_parser_safe`).
#[verifier::external_body]
fn parse_feed(body: &[u8]) -> (r: Result<FeedDocument, feed_rs::parser::ParseFeedError>)
    requires
        feed_body_parser_safe(body@),
    ensures
        r is Ok <==> parsed_feed(body@) is Some,
        r matches Ok(d) ==> parsed_feed(body@) == Some(d@),
{
    feed_rs::parser::parse(body).map(|f| FeedDocument {
        title: f.title.map(|t| t.content),
        entries: f.entries.into_iter().map(|e| FeedEntry {
            title: e.title.map(|t| t.content),
            links: e.links.into_iter().map(|l| FeedLink { rel: l.rel, href: l.href }).collect(),
        }).collect(),
    })
}

/// The query of `href` as `url::Url` parses it: its `(key, value)` pairs,
/// percent-decoded, in order; `None` where `href` is not a URL.
pub uninterp spec fn url_query(href: Seq<char>) -> Option<Seq<(Seq<char>, Seq<char>)>>;

/// The views of a list of string pairs.
pub open spec fn pair_views(v: Seq<(String, String)>) -> Seq<(Seq<char>, Seq<char>)> {
    v.map_values(|p: (String, String)| (p.0@, p.1@))
}

/// `url::Url::parse` followed by `Url::query_pairs`: the decoded query
/// pairs of `href`, or `None` where `href` does not parse as a URL.
#[verifier::external_body]
fn query_pairs(href: &str) -> (r: Option<Vec<(String, String)>>)
    ensures
        match r {
            Some(v) => url_query(href@) == Some(pair_views(v@)),
            None => url_query(href@) is None,
        },
{
    url::Url::parse(href).ok().map(
        |u| u.query_pairs().map(|(k, v)| (k.into_owned(), v.into_owned())).collect(),
    )
}

/// The position of the first link at or after `i` whose relation is `alternate`.
pub open spec fn alternate_from(links: Seq<SpecLink>, i: int) -> Option<int>
    decreases links.len() - i,
{
    if i < 0 || i >= links.len() {
        None
    } else if links[i].rel == Some("alternate"@) {
        Some(i)
    } else {
        alternate_from(links, i + 1)
    }
}

/// The value of the first pair at or after `i` whose key is `key`.
pub open spec fn value_from(pairs: Seq<(Seq<char>, Seq<char>)>, key: Seq<char>, i: int) -> Option<Seq<char>>
    decreases pairs.len() - i,
{
    if i < 0 || i >= pairs.len() {
        None
    } else if pairs[i].0 == key {
        Some(pairs[i].1)
    } else {
        value_from(pairs, key, i + 1)
    }
}

/// What the video-ID lookup makes of a link target and its parsed query:
/// the target and the value of its first `v` parameter.
pub open spec fn id_from_query(href: Seq<char>, query: Option<Seq<(Seq<char>, Seq<char>)>>) -> Option<(Seq<char>, Seq<char>)> {
    match query {
        Some(ps) => match value_from(ps, "v"@, 0) {
            Some(v) => Some((href, v)),
            None => None,
        },
        None => None,
    }
}

/// The watch URL and video ID of an entry: the target of its first
/// `alternate` link and that target's `v` query parameter.
pub open spec fn video_link(e: SpecEntry) -> Option<(Seq<char>, Seq<char>)> {
    match alternate_from(e.links, 0) {
        Some(i) => id_from_query(e.links[i].href, url_query(e.links[i].href)),
        None => None,
    }
}

/// The newest video of a channel named `channel` whose feed is `f`.
pub open spec fn latest_video(channel: Seq<char>, f: SpecFeed) -> Result<SpecVideo, FeedFault> {
    if f.title is None {
        Err(FeedFault::MissingField("channel name"@))
    } else if f.entries.len() == 0 {
        Err(FeedFault::EmptyFeed(channel))
    } else {
        match f.entries[0].title {
            None => Err(FeedFault::MissingField("video title"@)),
            Some(title) => match video_link(f.entries[0]) {
                Some((url, id)) => Ok(SpecVideo { title, id, url }),
                None => Err(FeedFault::VideoIdNotFound),
            },
        }
    }
}

/// Whether an HTTP status code is a success (2xx).
pub open spec fn status_ok(status: u16) -> bool {
    200 <= status < 300
}

/// The message of a feed request that was answered with a failing status.
pub open spec fn status_message(status: u16, channel: Seq<char>) -> Seq<char> {
    "response "@ + decimal(status as nat) + " for channel "@ + channel
}

/// What fetching and decoding a channel's feed gives: the refusal of a
/// failing status, the parse error, or the feed.
pub open spec fn decoded_feed(channel: Seq<char>, status: u16, body: Seq<u8>) -> Result<SpecFeed, FeedFault> {
    if !status_ok(status) {
        Err(FeedFault::Response(status_message(status, channel)))
    } else {
        match parsed_feed(body) {
            Some(f) => Ok(f),
            None => Err(FeedFault::Parse),
        }
    }
}

/// The abstract outcome of a decoded feed.
pub open spec fn feed_outcome(r: Result<FeedDocument, FeedError>) -> Result<SpecFeed, FeedFault> {
    match r {
        Ok(d) => Ok(d@),
        Err(e) => Err(e.fault()),
    }
}

/// The abstract outcome of a video lookup.
pub open spec fn video_outcome(r: Result<VideoInfo, FeedError>) -> Result<SpecVideo, FeedFault> {
    match r {
        Ok(v) => Ok(v@),
        Err(e) => Err(e.fault()),
    }
}

/// The abstract outcome of a video-ID lookup.
pub open spec fn link_outcome(r: Result<(String, String), FeedError>) -> Option<(Seq<char>, Seq<char>)> {
    match r {
        Ok((a, b)) => Some((a@, b@)),
        Err(_) => None,
    }
}

/// The position of the first link whose relation is `alternate`.
pub fn find_alternate(links: &Vec<FeedLink>) -> (r: Option<usize>)
    ensures
        match r {
            Some(i) => alternate_from(links@.map_values(|l: FeedLink| l@), 0) == Some(i as int),
            None => alternate_from(links@.map_values(|l: FeedLink| l@), 0) is None,
        },
        r matches Some(i) ==> i < links.len(),
{
    let ghost ls = links@.map_values(|l: FeedLink| l@);
    let n = links.len();
    let mut i: usize = 0;
    while i < n
        invariant
            n == links.len() == ls.len(),
            i <= n,
            ls == links@.map_values(|l: FeedLink| l@),
            alternate_from(ls, 0) == alternate_from(ls, i as int),
        decreases n - i,
    {
        assert(ls[i as int] == links@[i as int]@);
        let hit = match &links[i].rel {
            Some(rel) => str_eq(rel.as_str(), "alternate"),
            None => false,
        };
        if hit {
            return Some(i);
        }
        i = i + 1;
    }
    None
}

/// The value of the first pair whose key is `key`.
pub fn query_value(pairs: &Vec<(String, String)>, key: &str) -> (r: Option<String>)
    ensures
        opt_view(r) == value_from(pair_views(pairs@), key@, 0),
{
    let ghost ps = pair_views(pairs@);
    let n = pairs.len();
    let mut i: usize = 0;
    while i < n
        invariant
            n == pairs.len() == ps.len(),
            i <= n,
            ps == pair_views(pairs@),
            value_from(ps, key@, 0) == value_from(ps, key@, i as int),
        decreases n - i,
    {
        assert(ps[i as int] == (pairs@[i as int].0@, pairs@[i as int].1@));
        if str_eq(pairs[i].0.as_str(), key) {
            return Some(pairs[i].1.clone());
        }
        i = i + 1;
    }
    None
}

/// The watch URL and video ID from a link target and its parsed query.
pub fn video_id_from_query(href: String, query: Option<Vec<(String, String)>>) -> (r: Result<(String, String), FeedError>)
    ensures
        link_outcome(r) == id_from_query(
            href@,
            match query {
                Some(v) => Some(pair_views(v@)),
                None => None,
            },
        ),
        r matches Err(e) ==> e is VideoIdNotFound,
{
    match query {
        Some(pairs) => match query_value(&pairs, "v") {
            Some(id) => Ok((href, id)),
            None => Err(FeedError::VideoIdNotFound),
        },
        None => Err(FeedError::VideoIdNotFound),
    }
}

/// The watch URL and video ID of a feed entry: the target of its first
/// `alternate` link and that target's `v` query parameter.
pub fn extract_video_id(entry: &FeedEntry) -> (r: Result<(String, String), FeedError>)
    ensures
        link_outcome(r) == video_link(entry@),
        r matches Err(e) ==> e is VideoIdNotFound,
{
    match find_alternate(&entry.links) {
        Some(i) => {
            assert(entry@.links[i as int] == entry.links@[i as int]@);
            let href = entry.links[i].href.clone();
            let query = query_pairs(href.as_str());
            video_id_from_query(href, query)
        },
        None => Err(FeedError::VideoIdNotFound),
    }
}

proof fn lemma_alternate_from(links: Seq<SpecLink>, i: int)
    requires
        0 <= i,
    ensures
        alternate_from(links, i) matches Some(j) ==> i <= j < links.len() && links[j].rel == Some("alternate"@)
            && forall|t: int| i <= t < j ==> links[t].rel != Some("alternate"@),
        alternate_from(links, i) is None ==> forall|t: int| i <= t < links.len() ==> links[t].rel != Some(
            "alternate"@,
        ),
    decreases links.len() - i,
{
    if i < links.len() && links[i].rel != Some("alternate"@) {
        lemma_alternate_from(links, i + 1);
    }
}

proof fn lemma_value_from(pairs: Seq<(Seq<char>, Seq<char>)>, key: Seq<char>, i: int)
    requires
        0 <= i,
    ensures
        value_from(pairs, key, i) matches Some(v) ==> exists|j: int| i <= j < pairs.len() && pairs[j] == (key, v)
            && forall|t: int| i <= t < j ==> pairs[t].0 != key,
        value_from(pairs, key, i) is None ==> forall|t: int| i <= t < pairs.len() ==> pairs[t].0 != key,
    decreases pairs.len() - i,
{
    if i < pairs.len() && pairs[i].0 != key {
        lemma_value_from(pairs, key, i + 1);
    }
}

/// An entry's watch link is the target of its first link whose relation is
/// `alternate`, and its video ID is the value of the first `v` parameter of
/// that target's query; where there is no such link or parameter, the entry
/// has no watch link.
pub proof fn law_video_link(e: SpecEntry)
    ensures
        video_link(e) matches Some((url, id)) ==> exists|j: int|
            0 <= j < e.links.len() && e.links[j].rel == Some("alternate"@) && e.links[j].href == url && (forall|
                t: int,
            | 0 <= t < j ==> e.links[t].rel != Some("alternate"@)) && (url_query(url) matches Some(ps) && exists|
                k: int,
            | 0 <= k < ps.len() && ps[k] == ("v"@, id) && forall|t: int| 0 <= t < k ==> ps[t].0 != "v"@),
        (forall|t: int| 0 <= t < e.links.len() ==> e.links[t].rel != Some("alternate"@)) ==> video_link(e) is None,
{
    lemma_alternate_from(e.links, 0);
    if let Some(j) = alternate_from(e.links, 0) {
        if let Some(ps) = url_query(e.links[j].href) {
            lemma_value_from(ps, "v"@, 0);
        }
    }
}

/// The newest video of a feed is its first entry: where the feed has a
/// title and an entry, a video is found exactly when the first entry has a
/// title and a watch link, and then it carries that title, URL and ID.
pub proof fn law_latest_is_first_entry(channel: Seq<char>, f: SpecFeed)
    requires
        f.title is Some,
        f.entries.len() > 0,
    ensures
        latest_video(channel, f) is Ok <==> (f.entries[0].title is Some && video_link(f.entries[0]) is Some),
        latest_video(channel, f) matches Ok(v) ==> Some(v.title) == f.entries[0].title && Some((v.url, v.id))
            == video_link(f.entries[0]),
{
}

/// The newest video announced by the feed of channel `channel_id`.
pub fn latest_video_info(channel_id: &str, feed: &FeedDocument) -> (r: Result<VideoInfo, FeedError>)
    ensures
        video_outcome(r) == latest_video(channel_id@, feed@),
        feed@.title is Some && feed@.entries.len() > 0 ==> (r is Ok <==> (feed@.entries[0].title is Some
            && video_link(feed@.entries[0]) is Some)),
        r matches Ok(v) ==> feed@.entries.len() > 0 && Some(v.title@) == feed@.entries[0].title && Some(
            (v.url@, v.id@),
        ) == video_link(feed@.entries[0]),
{
    proof {
        if feed@.title is Some && feed@.entries.len() > 0 {
            law_latest_is_first_entry(channel_id@, feed@);
        }
    }
    if feed.title.is_none() {
        return Err(FeedError::MissingField("channel name".to_string()));
    }
    if feed.entries.len() == 0 {
        return Err(FeedError::EmptyFeed(channel_id.to_string()));
    }
    let latest = &feed.entries[0];
    assert(feed@.entries[0] == latest@);
    let title = match &latest.title {
        Some(t) => t.clone(),
        None => return Err(FeedError::MissingField("video title".to_string())),
    };
    match extract_video_id(latest) {
        Ok((url, id)) => Ok(VideoInfo { title, id, url }),
        Err(e) => Err(e),
    }
}

/// Refuses a feed request that was answered with a failing status.
pub fn check_status(channel_id: &str, status: u16) -> (r: Result<(), FeedError>)
    ensures
        r is Ok <==> status_ok(status),
        r matches Err(e) ==> e.fault() == FeedFault::Response(status_message(status, channel_id@)),
{
    if 200 <= status && status < 300 {
        return Ok(());
    }
    let mut msg = String::new();
    append_str(&mut msg, "response ");
    push_decimal(&mut msg, status as u64);
    append_str(&mut msg, " for channel ");
    append_str(&mut msg, channel_id);
    Err(FeedError::ResponseError(msg))
}

/// The parsed feed, or the parser's error handed on unchanged as a
/// [`FeedError::ParseError`].
pub fn feed_from_parse(parsed: Result<FeedDocument, feed_rs::parser::ParseFeedError>) -> (r: Result<
    FeedDocument,
    FeedError,
>)
    ensures
        match parsed {
            Ok(d) => r == Ok::<FeedDocument, FeedError>(d),
            Err(e) => r == Err::<FeedDocument, FeedError>(FeedError::ParseError(e)),
        },
{
    match parsed {
        Ok(d) => Ok(d),
        Err(e) => Err(FeedError::ParseError(e)),
    }
}

/// The feed of channel `channel_id` from the status and body of the
/// answer to its feed request.
pub fn decode_feed(channel_id: &str, status: u16, body: &[u8]) -> (r: Result<FeedDocument, FeedError>)
    requires
        status_ok(status) ==> feed_body_parser_safe(body@),
    ensures
        feed_outcome(r) == decoded_feed(channel_id@, status, body@),
{
    match check_status(channel_id, status) {
        Ok(()) => {},
        Err(e) => return Err(e),
    }
    feed_from_parse(parse_feed(body))
}

/// The newest video of channel `channel_id`, from the status and body of
/// the answer to its feed request.
pub fn get_latest_video_info(channel_id: &str, status: u16, body: &[u8]) -> (r: Result<VideoInfo, FeedError>)
    requires
        status_ok(status) ==> feed_body_parser_safe(body@),
    ensures
        video_outcome(r) == match decoded_feed(channel_id@, status, body@) {
            Ok(f) => latest_video(channel_id@, f),
            Err(fault) => Err(fault),
        },
{
    let feed = decode_feed(channel_id, status, body)?;
    latest_video_info(channel_id, &feed)
}

} // verus!
