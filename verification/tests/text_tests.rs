use riaaudio::text::{chars_of, contains_str, fmt_i64, fmt_u64, replace_chars, split_once_str, str_eq, trim};

#[test]
fn trim_strips_unicode_whitespace_on_both_ends() {
    assert_eq!(trim("  abc|def \t\r"), "abc|def");
    assert_eq!(trim("\u{3000}x y\u{a0}"), "x y");
    assert_eq!(trim("   "), "");
    assert_eq!(trim(""), "");
    assert_eq!(trim("a"), "a");
}

#[test]
fn trim_agrees_with_std() {
    for s in ["  x ", "\u{2028}y\u{85}", "\u{200b}z", "\u{1680}w\u{205f}", "a b", "\n\n"] {
        assert_eq!(trim(s), s.trim());
    }
}

#[test]
fn split_once_splits_at_first_occurrence() {
    assert_eq!(
        split_once_str("Artist - Song - Remix", " - "),
        Some(("Artist".to_string(), "Song - Remix".to_string()))
    );
    assert_eq!(split_once_str("id|title|more", "|"), Some(("id".to_string(), "title|more".to_string())));
    assert_eq!(split_once_str("no separator", " - "), None);
    assert_eq!(split_once_str("abc", ""), Some(("".to_string(), "abc".to_string())));
}

#[test]
fn contains_finds_substrings() {
    assert!(contains_str("https://www.youtube.com/shorts/abc", "/shorts/"));
    assert!(!contains_str("https://www.youtube.com/watch?v=abc", "/shorts/"));
    assert!(contains_str("x", ""));
}

#[test]
fn equality_compares_characters() {
    assert!(str_eq("alternate", "alternate"));
    assert!(!str_eq("alternate", "alternat"));
    assert!(!str_eq("ab", "ba"));
}

#[test]
fn replace_is_leftmost_and_non_overlapping() {
    let r = replace_chars(&chars_of("aaaa"), &chars_of("aa"), &chars_of("b"));
    assert_eq!(r.iter().collect::<String>(), "bb");
    let r = replace_chars(&chars_of("xabyab"), &chars_of("ab"), &chars_of("--"));
    assert_eq!(r.iter().collect::<String>(), "x--y--");
    let r = replace_chars(&chars_of("none"), &chars_of("q"), &chars_of("z"));
    assert_eq!(r.iter().collect::<String>(), "none");
}

#[test]
fn decimal_numerals() {
    assert_eq!(fmt_u64(0), "0");
    assert_eq!(fmt_u64(404), "404");
    assert_eq!(fmt_u64(u64::MAX), u64::MAX.to_string());
    assert_eq!(fmt_i64(-1), "-1");
    assert_eq!(fmt_i64(255), "255");
    assert_eq!(fmt_i64(i64::MIN), i64::MIN.to_string());
}
