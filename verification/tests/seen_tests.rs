use riaaudio::seen::{load_seen, parse_seen_log, record_seen, seen_log_line, SeenSet};
use riaaudio::structs::VideoInfo;

fn info(id: &str, title: &str) -> VideoInfo {
    VideoInfo { title: title.to_string(), id: id.to_string(), url: format!("https://www.youtube.com/watch?v={}", id) }
}

#[test]
fn seen_set_behaves_like_a_set() {
    let mut s = SeenSet::new();
    assert_eq!(s.len(), 0);
    assert!(s.insert("a".to_string()));
    assert!(s.insert("b".to_string()));
    assert!(!s.insert("a".to_string()));
    assert_eq!(s.len(), 2);
    assert!(s.contains("a"));
    assert!(!s.contains("c"));
}

#[test]
fn log_line_format() {
    assert_eq!(seen_log_line(&info("abc", "Artist - Song")), "abc|Artist - Song\n");
}

#[test]
fn parsing_a_log_trims_and_skips_blank_lines() {
    let recs = parse_seen_log("a|A - 1\n\n   \n  b|B - 2 | x  \r\nc|").unwrap();
    assert_eq!(
        recs,
        vec![
            ("a".to_string(), "A - 1".to_string()),
            ("b".to_string(), "B - 2 | x".to_string()),
            ("c".to_string(), "".to_string()),
        ]
    );
    assert_eq!(parse_seen_log("").unwrap(), vec![]);
}

#[test]
fn corrupted_log_is_detected() {
    assert!(parse_seen_log("a|A\nno bar here\n").is_none());
}

#[test]
fn loading_a_log() {
    let (ids, titles) = load_seen(Some("a|A - 1\nb|B - 2\n"));
    assert!(ids.contains("a") && ids.contains("b"));
    assert!(titles.contains("A - 1") && titles.contains("B - 2"));
    assert_eq!(ids.len(), 2);
    let (ids, titles) = load_seen(None);
    assert_eq!(ids.len() + titles.len(), 0);
}

#[test]
fn recording_then_reloading_gives_the_record_back() {
    let mut ids = SeenSet::new();
    let mut titles = SeenSet::new();
    let mut log = String::from("x|X - 0\n");
    let v = info("abc", "Artist - Song");
    log.push_str(&record_seen(&mut ids, &mut titles, &v));
    assert!(ids.contains("abc"));
    assert!(titles.contains("Artist - Song"));
    let recs = parse_seen_log(&log).unwrap();
    assert_eq!(recs.last().unwrap(), &("abc".to_string(), "Artist - Song".to_string()));
    let (ids2, titles2) = load_seen(Some(&log));
    assert!(ids2.contains("abc") && titles2.contains("Artist - Song") && ids2.contains("x"));
}

#[test]
fn trailing_whitespace_of_a_title_is_lost_on_reload() {
    let v = info("abc", "Artist - Song ");
    let recs = parse_seen_log(&seen_log_line(&v)).unwrap();
    assert_eq!(recs, vec![("abc".to_string(), "Artist - Song".to_string())]);
}
