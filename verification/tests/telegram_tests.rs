use riaaudio::errors::TelegramError;
use riaaudio::telegram::{check_reply, mask_secret, prepare_upload, read_reply, split_song_name, TelegramReply};

#[test]
fn song_name_split() {
    assert_eq!(split_song_name("Artist - Song - Edit"), Some(("Artist".to_string(), "Song - Edit".to_string())));
    assert_eq!(split_song_name("Artist-Song"), None);
}

#[test]
fn upload_request() {
    let r = prepare_upload("123:abc", "@chan", "Artist - Song");
    assert_eq!(r.endpoint, "https://api.telegram.org/bot123:abc/sendAudio");
    assert_eq!(r.file_name, "Artist - Song.mp3");
    let f: Vec<(&str, &str)> = r.fields.iter().map(|(a, b)| (a.as_str(), b.as_str())).collect();
    assert_eq!(
        f,
        vec![("chat_id", "@chan"), ("title", "Song"), ("performer", "Artist"), ("disable_notification", "true")]
    );
}

#[test]
fn token_is_masked() {
    assert_eq!(mask_secret("/bot123:abc/sendAudio", "123:abc"), "/botXXXXXXX/sendAudio");
    assert_eq!(mask_secret("/path", ""), "/path");
    assert_eq!(mask_secret("/botté/x", "té"), "/botXXX/x");
}

#[test]
fn replies() {
    assert!(read_reply(br#"{"ok":true,"result":{}}"#).is_ok());
    match read_reply(br#"{"ok":false}"#) {
        Err(TelegramError::ResponseError(m)) => assert_eq!(m, r#"{"ok":false}"#),
        other => panic!("unexpected {:?}", other),
    }
    match read_reply(b"<html>") {
        Err(TelegramError::ResponseError(m)) => assert_eq!(m, "Response json parsing error"),
        other => panic!("unexpected {:?}", other),
    }
    match read_reply(br#"{"ok":"yes"}"#) {
        Err(TelegramError::ResponseError(m)) => assert_eq!(m, r#"{"ok":"yes"}"#),
        other => panic!("unexpected {:?}", other),
    }
    assert!(check_reply(Some(TelegramReply { ok: Some(Some(true)), rendered: String::new() })).is_ok());
    assert!(check_reply(Some(TelegramReply { ok: None, rendered: String::new() })).is_err());
}
