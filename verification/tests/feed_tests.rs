use riaaudio::feed_guard::feed_body_is_parser_safe;
use riaaudio::errors::FeedError;
use riaaudio::feed::{
    check_status, decode_feed, extract_video_id, feed_from_parse, find_alternate, get_latest_video_info, latest_video_info,
    query_value, video_id_from_query, FeedDocument, FeedEntry, FeedLink,
};

const FEED: &str = r#"<?xml version="1.0" encoding="UTF-8"?>
<feed xmlns:yt="http://www.youtube.com/xml/schemas/2015" xmlns:media="http://search.yahoo.com/mrss/" xmlns="http://www.w3.org/2005/Atom">
 <link rel="self" href="http://www.youtube.com/feeds/videos.xml?channel_id=UC123"/>
 <id>yt:channel:UC123</id>
 <yt:channelId>UC123</yt:channelId>
 <title>Some Channel</title>
 <link rel="alternate" href="https://www.youtube.com/channel/UC123"/>
 <published>2020-01-01T00:00:00+00:00</published>
 <entry>
  <id>yt:video:vid0001</id>
  <yt:videoId>vid0001</yt:videoId>
  <title>Artist - Newest Song</title>
  <link rel="alternate" href="https://www.youtube.com/watch?v=vid0001"/>
  <published>2024-01-02T00:00:00+00:00</published>
  <updated>2024-01-02T00:00:00+00:00</updated>
 </entry>
 <entry>
  <id>yt:video:vid0000</id>
  <title>Artist - Older Song</title>
  <link rel="alternate" href="https://www.youtube.com/watch?v=vid0000"/>
  <published>2024-01-01T00:00:00+00:00</published>
  <updated>2024-01-01T00:00:00+00:00</updated>
 </entry>
</feed>"#;

fn link(rel: Option<&str>, href: &str) -> FeedLink {
    FeedLink { rel: rel.map(|r| r.to_string()), href: href.to_string() }
}

#[test]
fn newest_video_of_a_youtube_feed() {
    let v = get_latest_video_info("UC123", 200, FEED.as_bytes()).unwrap();
    assert_eq!(v.title, "Artist - Newest Song");
    assert_eq!(v.id, "vid0001");
    assert_eq!(v.url, "https://www.youtube.com/watch?v=vid0001");
}

#[test]
fn failing_status_is_refused_with_its_code() {
    match get_latest_video_info("UC123", 404, FEED.as_bytes()) {
        Err(FeedError::ResponseError(m)) => assert_eq!(m, "response 404 for channel UC123"),
        other => panic!("unexpected {:?}", other),
    }
    assert!(check_status("c", 299).is_ok());
    assert!(check_status("c", 300).is_err());
    assert!(check_status("c", 199).is_err());
}

#[test]
fn unparsable_body_is_a_parse_error() {
    assert!(matches!(decode_feed("UC123", 200, b"not a feed"), Err(FeedError::ParseError(_))));
}

#[test]
fn decoded_feed_keeps_titles_and_links() {
    let d = decode_feed("UC123", 200, FEED.as_bytes()).unwrap();
    assert_eq!(d.title.as_deref(), Some("Some Channel"));
    assert_eq!(d.entries.len(), 2);
    assert_eq!(d.entries[1].title.as_deref(), Some("Artist - Older Song"));
    assert_eq!(d.entries[0].links[0].rel.as_deref(), Some("alternate"));
}

#[test]
fn missing_channel_name() {
    let d = FeedDocument { title: None, entries: vec![] };
    match latest_video_info("UC1", &d) {
        Err(FeedError::MissingField(f)) => assert_eq!(f, "channel name"),
        other => panic!("unexpected {:?}", other),
    }
}

#[test]
fn empty_feed() {
    let d = FeedDocument { title: Some("c".to_string()), entries: vec![] };
    match latest_video_info("UC1", &d) {
        Err(FeedError::EmptyFeed(c)) => assert_eq!(c, "UC1"),
        other => panic!("unexpected {:?}", other),
    }
}

#[test]
fn missing_video_title() {
    let d = FeedDocument {
        title: Some("c".to_string()),
        entries: vec![FeedEntry { title: None, links: vec![link(Some("alternate"), "https://y.com/watch?v=a")] }],
    };
    match latest_video_info("UC1", &d) {
        Err(FeedError::MissingField(f)) => assert_eq!(f, "video title"),
        other => panic!("unexpected {:?}", other),
    }
}

#[test]
fn video_id_comes_from_the_first_alternate_link() {
    let e = FeedEntry {
        title: Some("t".to_string()),
        links: vec![
            link(Some("self"), "https://y.com/watch?v=wrong"),
            link(None, "https://y.com/watch?v=none"),
            link(Some("alternate"), "https://y.com/watch?a=1&v=right&v=later"),
            link(Some("alternate"), "https://y.com/watch?v=second"),
        ],
    };
    assert_eq!(find_alternate(&e.links), Some(2));
    assert_eq!(
        extract_video_id(&e).unwrap(),
        ("https://y.com/watch?a=1&v=right&v=later".to_string(), "right".to_string())
    );
}

#[test]
fn first_alternate_link_without_v_is_not_found() {
    let e = FeedEntry {
        title: Some("t".to_string()),
        links: vec![link(Some("alternate"), "https://y.com/watch?x=1"), link(Some("alternate"), "https://y.com/watch?v=2")],
    };
    assert!(matches!(extract_video_id(&e), Err(FeedError::VideoIdNotFound)));
    let e = FeedEntry { title: Some("t".to_string()), links: vec![link(Some("alternate"), "not a url")] };
    assert!(matches!(extract_video_id(&e), Err(FeedError::VideoIdNotFound)));
    let e = FeedEntry { title: Some("t".to_string()), links: vec![] };
    assert!(matches!(extract_video_id(&e), Err(FeedError::VideoIdNotFound)));
}

#[test]
fn query_values_are_percent_decoded() {
    let e = FeedEntry { title: None, links: vec![link(Some("alternate"), "https://y.com/watch?v=a%20b")] };
    assert_eq!(extract_video_id(&e).unwrap().1, "a b");
}

#[test]
fn query_lookup_takes_the_first_matching_key() {
    let pairs = vec![("x".to_string(), "1".to_string()), ("v".to_string(), "2".to_string()), ("v".to_string(), "3".to_string())];
    assert_eq!(query_value(&pairs, "v"), Some("2".to_string()));
    assert_eq!(query_value(&pairs, "y"), None);
    assert!(matches!(video_id_from_query("h".to_string(), None), Err(FeedError::VideoIdNotFound)));
    assert_eq!(video_id_from_query("h".to_string(), Some(pairs)).unwrap(), ("h".to_string(), "2".to_string()));
}

#[test]
fn feed_bodies_that_the_parser_handles_safely() {
    assert!(feed_body_is_parser_safe(FEED.as_bytes()));
    assert!(feed_body_is_parser_safe("<feed><title>Ümlaut – ★ ٣</title></feed>".as_bytes()));
    assert!(feed_body_is_parser_safe(b""));
    assert!(feed_body_is_parser_safe(b"<feed>start=</feed>"));
    assert!(feed_body_is_parser_safe(b"<feed><title>see https://y.com/watch?v=a&amp;start=30</title></feed>"));
    assert!(feed_body_is_parser_safe(b"<feed><media:text start=\"00:01:02.5\" end = '12'/></feed>"));
    assert!(feed_body_is_parser_safe(b"<feed><media:thumbnail time=\"123456789012345\"/></feed>"));
    assert!(feed_body_is_parser_safe(b"<feed>The End</feed>"));
}

#[test]
fn feed_bodies_that_could_make_the_parser_panic() {
    assert!(!feed_body_is_parser_safe(b"<feed><media:thumbnail time=\"1234567890123456\"/></feed>"));
    assert!(!feed_body_is_parser_safe("<feed><media:text start='٣'/></feed>".as_bytes()));
    assert!(!feed_body_is_parser_safe(b"<feed><media:text end=\"&#49;\"/></feed>"));
    assert!(!feed_body_is_parser_safe(&[0xff, 0xfe, b'<', 0]));
    assert!(!feed_body_is_parser_safe(b"<feed>\x1b(B</feed>"));
}

#[test]
fn rss_and_json_bodies() {
    let rss = b"<?xml version=\"1.0\"?><rss version=\"2.0\"><channel><title>Chan</title><item><title>A - B</title></item></channel></rss>";
    assert!(feed_body_is_parser_safe(rss));
    let d = decode_feed("c", 200, rss).unwrap();
    assert_eq!(d.title.as_deref(), Some("Chan"));
    assert!(!feed_body_is_parser_safe("<rss version=\"2.0\"><channel><author>é a@b.cd</author></channel></rss>".as_bytes()));
    assert!(feed_body_is_parser_safe(b"<!DOCTYPE rss><rss version=\"2.0\"><![CDATA[1]]></rss>"));
    assert!(!feed_body_is_parser_safe(b"<rss><itunes:duration>1<![CDATA[2]]></itunes:duration></rss>"));
    let accented = "<rss version=\"2.0\"><channel><title>Über – ★</title></channel></rss>";
    assert!(feed_body_is_parser_safe(accented.as_bytes()));
    assert_eq!(decode_feed("c", 200, accented.as_bytes()).unwrap().title.as_deref(), Some("Über – ★"));
    assert!(!feed_body_is_parser_safe("<rss><itunes:duration>١</itunes:duration></rss>".as_bytes()));
    assert!(feed_body_is_parser_safe(b"<rss><author>a@b.cd (A)</author><itunes:duration>01:02:03</itunes:duration></rss>"));
    assert!(!feed_body_is_parser_safe(b"<rss><itunes:duration>1234567890123456</itunes:duration></rss>"));
    assert!(!feed_body_is_parser_safe(b"<x:RDF>&#233;</x:RDF>"));
    let json = br#"{"version":"https://jsonfeed.org/version/1.1","title":"J","items":[]}"#;
    assert!(feed_body_is_parser_safe(json));
    assert_eq!(decode_feed("c", 200, json).unwrap().title.as_deref(), Some("J"));
    assert!(feed_body_is_parser_safe("{\"title\":\"é\"}".as_bytes()));
    assert!(!feed_body_is_parser_safe("{\"authors\":[{\"name\":\"é a@b.cd\"}]}".as_bytes()));
    assert!(!feed_body_is_parser_safe(br#"{"title":"\u00e9"}"#));
    let escaped = br#"{"version":"https://jsonfeed.org/version/1.1","title":"a \"b\" \/ c","items":[]}"#;
    assert!(feed_body_is_parser_safe(escaped));
    assert_eq!(decode_feed("c", 200, escaped).unwrap().title.as_deref(), Some("a \"b\" / c"));
    assert!(feed_body_is_parser_safe(b"<a>{</a>"));
}

#[test]
fn parse_errors_are_handed_on_unchanged() {
    let e = feed_rs::parser::parse(&b"plain text"[..]).unwrap_err();
    let msg = e.to_string();
    match feed_from_parse(Err(e)) {
        Err(FeedError::ParseError(e2)) => assert_eq!(e2.to_string(), msg),
        _ => panic!("expected a parse error"),
    }
    let d = FeedDocument { title: Some("T".to_string()), entries: vec![] };
    assert_eq!(feed_from_parse(Ok(d)).unwrap().title.as_deref(), Some("T"));
}
