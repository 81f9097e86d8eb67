use riaaudio::structs::{VideoError, VideoInfo};
use riaaudio::title::{
    any_pattern_matches, replacement_for, strip_bracket_matches, strip_decorations, validate_title, Pattern,
    Regexes,
};

fn pat(s: &str) -> Pattern {
    Pattern::new(s).unwrap()
}

fn regexes() -> Regexes {
    Regexes {
        title_regex: pat(r"^.+ - .+$"),
        bracket_regexes: vec![pat(r"\s*\([^)]*\)"), pat(r"\s*\[[^\]]*\]")],
        banned_regexes: vec![pat(r"(?i)best of"), pat(r"(?i)\bmix\b")],
        removed_regexes: vec![pat(r"(?i)lyric"), pat(r"(?i)official"), pat(r"(?i)monstercat")],
    }
}

fn video(title: &str) -> VideoInfo {
    VideoInfo { title: title.to_string(), id: "id1".to_string(), url: "https://www.youtube.com/watch?v=id1".to_string() }
}

#[test]
fn invalid_pattern_is_refused() {
    assert!(Pattern::new("(unclosed").is_none());
    assert!(Pattern::new("ok+").is_some());
}

#[test]
fn pattern_matching() {
    assert!(pat("b+").is_match("abbc"));
    assert!(!pat("^b").is_match("abbc"));
    assert!(any_pattern_matches(&vec![pat("x"), pat("c$")], "abc"));
    assert!(!any_pattern_matches(&vec![], "abc"));
}

#[test]
fn removable_matches_are_replaced_by_nothing() {
    let removed = vec![pat("(?i)lyric"), pat("(?i)official")];
    assert_eq!(replacement_for(&removed, " (Official Video)"), "");
    assert_eq!(replacement_for(&removed, " (Live)"), " (Live)");
    assert_eq!(replacement_for(&vec![], " (Lyrics)"), " (Lyrics)");
}

#[test]
fn bracket_matches_that_a_removal_pattern_matches_are_deleted() {
    let removed = vec![pat("(?i)lyric")];
    assert_eq!(strip_bracket_matches("A - B (Lyrics) (Live)", &pat(r"\s*\([^)]*\)"), &removed), "A - B (Live)");
    assert_eq!(strip_bracket_matches("A - B", &pat(r"\s*\([^)]*\)"), &removed), "A - B");
}

#[test]
fn decorations_are_stripped_pattern_by_pattern() {
    let r = regexes();
    assert_eq!(
        strip_decorations("Artist - Song (Official Video) [Monstercat Release]", &r.bracket_regexes, &r.removed_regexes),
        "Artist - Song"
    );
    assert_eq!(
        strip_decorations("Artist - Song (feat. Someone) [Lyric Video]", &r.bracket_regexes, &r.removed_regexes),
        "Artist - Song (feat. Someone)"
    );
}

#[test]
fn validate_title_accepts_and_cleans() {
    let r = validate_title(&video("Artist - Song (Lyrics Video)"), &regexes());
    assert_eq!(r.unwrap(), "Artist - Song");
    let r = validate_title(&video("Artist - Song"), &regexes());
    assert_eq!(r.unwrap(), "Artist - Song");
}

#[test]
fn validate_title_refuses_template_mismatch() {
    match validate_title(&video("Just a title"), &regexes()) {
        Err(VideoError::TitleValidationFailed(v)) => assert_eq!(v.title, "Just a title"),
        other => panic!("unexpected {:?}", other),
    }
}

#[test]
fn validate_title_refuses_banned_patterns() {
    match validate_title(&video("Various - Best Of 2020"), &regexes()) {
        Err(VideoError::TitleValidationFailed(v)) => assert_eq!(v.id, "id1"),
        other => panic!("unexpected {:?}", other),
    }
    assert!(validate_title(&video("DJ - Summer Mix"), &regexes()).is_err());
    assert!(validate_title(&video("DJ - Mixture"), &regexes()).is_ok());
}

#[test]
fn titles_without_removable_decorations_come_back_unchanged() {
    let mut r = regexes();
    let t = "Artist - Song (Live) [Remix]";
    assert_eq!(validate_title(&video(t), &r).unwrap(), t);
    r.removed_regexes = vec![];
    assert_eq!(validate_title(&video("Artist - Song (Official Video)"), &r).unwrap(), "Artist - Song (Official Video)");
    let cleaned = validate_title(&video("Artist - Song (Lyrics) [Official]"), &regexes()).unwrap();
    assert!(cleaned.len() <= "Artist - Song (Lyrics) [Official]".len());
}
