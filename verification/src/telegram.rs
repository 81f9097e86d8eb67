//! The pieces of an audio upload to Telegram: the request's target and
//! fields, the hiding of the bot token, and the reading of the reply.

use vstd::prelude::*;
use crate::errors::TelegramError;
use crate::text::{append_str, chars_of, occurs_at, replace_all, replace_chars, split_once, split_once_str, string_of};

verus! {

/// `full` split into performer and title at its first ` - `.
pub open spec fn song_parts(full: Seq<char>) -> Option<(Seq<char>, Seq<char>)> {
    split_once(full, " - "@)
}

/// The performer part of a song name: what comes before its first ` - `.
pub open spec fn song_performer(full: Seq<char>) -> Seq<char> {
    match song_parts(full) {
        Some((p, _)) => p,
        None => Seq::empty(),
    }
}

/// The title part of a song name: what comes after its first ` - `.
pub open spec fn song_title(full: Seq<char>) -> Seq<char> {
    match song_parts(full) {
        Some((_, t)) => t,
        None => Seq::empty(),
    }
}

/// Splits a song name `Performer - Title` at its first ` - `.
pub fn split_song_name(full_song_name: &str) -> (r: Option<(String, String)>)
    ensures
        match r {
            Some((a, b)) => song_parts(full_song_name@) == Some((a@, b@)),
            None => song_parts(full_song_name@) is None,
        },
{
    split_once_str(full_song_name, " - ")
}

/// Splitting a song name loses nothing: performer, ` - ` and title put
/// back together give the name, and the performer holds no ` - `.
pub proof fn law_song_name_split(full: Seq<char>)
    requires
        song_parts(full) is Some,
    ensures
        song_performer(full) + " - "@ + song_title(full) == full,
        forall|k: int| 0 <= k < song_performer(full).len() ==> !occurs_at(full, " - "@, k),
{
    let pat = " - "@;
    crate::text::lemma_find_from(full, pat, 0);
    let i = crate::text::find(full, pat)->0;
    assert(full.subrange(i, i + pat.len()) == pat);
    assert(full.take(i) + pat + full.skip(i + pat.len()) =~= full);
}

/// The Bot API method that uploads audio for the bot with `token`.
pub open spec fn endpoint_for(token: Seq<char>) -> Seq<char> {
    "https://api.telegram.org/bot"@ + token + "/sendAudio"@
}

/// A run of `n` letters `X`.
pub open spec fn x_run(n: nat) -> Seq<char> {
    Seq::new(n, |i: int| 'X')
}

/// `text` with every occurrence of `secret` replaced by a run of `n` `X`
/// (the secret's length in bytes).
pub open spec fn masked(text: Seq<char>, secret: Seq<char>, n: nat) -> Seq<char> {
    if secret.len() == 0 {
        text
    } else {
        replace_all(text, secret, x_run(n))
    }
}

/// The fields of the upload form besides the audio part, in order.
pub open spec fn upload_fields(chat_id: Seq<char>, performer: Seq<char>, title: Seq<char>) -> Seq<(Seq<char>, Seq<char>)> {
    seq![
        ("chat_id"@, chat_id),
        ("title"@, title),
        ("performer"@, performer),
        ("disable_notification"@, "true"@),
    ]
}

/// The upload form names the song's parts as they stand in the name: its
/// `title` and `performer` fields put back together around ` - ` give the
/// name, and the performer holds no ` - `.
pub proof fn law_upload_fields_rebuild_name(chat_id: Seq<char>, full: Seq<char>)
    requires
        song_parts(full) is Some,
    ensures
        upload_fields(chat_id, song_performer(full), song_title(full)).len() == 4,
        upload_fields(chat_id, song_performer(full), song_title(full))[0] == ("chat_id"@, chat_id),
        upload_fields(chat_id, song_performer(full), song_title(full))[1].0 == "title"@,
        upload_fields(chat_id, song_performer(full), song_title(full))[2].0 == "performer"@,
        upload_fields(chat_id, song_performer(full), song_title(full))[2].1 + " - "@ + upload_fields(
            chat_id,
            song_performer(full),
            song_title(full),
        )[1].1 == full,
        forall|k: int|
            0 <= k < upload_fields(chat_id, song_performer(full), song_title(full))[2].1.len() ==> !occurs_at(
                full,
                " - "@,
                k,
            ),
{
    law_song_name_split(full);
}

/// Everything an audio upload sends besides the file's contents.
pub struct UploadRequest {
    pub endpoint: String,
    pub file_name: String,
    pub fields: Vec<(String, String)>,
}

/// The request that uploads the song `full_song_name` (of the form
/// `Performer - Title`) for the bot with `token` to chat `chat_id`. A name
/// without ` - ` is refused by the requirement; titles are screened so as
/// to have one.
pub fn prepare_upload(token: &str, chat_id: &str, full_song_name: &str) -> (r: UploadRequest)
    requires
        song_parts(full_song_name@) is Some,
    ensures
        r.endpoint@ == endpoint_for(token@),
        r.file_name@ == full_song_name@ + ".mp3"@,
        r.fields@.map_values(|p: (String, String)| (p.0@, p.1@)) == upload_fields(
            chat_id@,
            song_performer(full_song_name@),
            song_title(full_song_name@),
        ),
        r.fields@.len() == 4,
        r.fields@[1].0@ == "title"@ && r.fields@[2].0@ == "performer"@,
        r.fields@[2].1@ + " - "@ + r.fields@[1].1@ == full_song_name@,
        forall|k: int| 0 <= k < r.fields@[2].1@.len() ==> !occurs_at(full_song_name@, " - "@, k),
{
    proof {
        law_song_name_split(full_song_name@);
    }
    let (performer, title) = match split_song_name(full_song_name) {
        Some(p) => p,
        None => {
            assert(false);
            (String::new(), String::new())
        },
    };
    let mut endpoint = String::new();
    append_str(&mut endpoint, "https://api.telegram.org/bot");
    append_str(&mut endpoint, token);
    append_str(&mut endpoint, "/sendAudio");
    let mut file_name = String::new();
    append_str(&mut file_name, full_song_name);
    append_str(&mut file_name, ".mp3");
    let mut fields: Vec<(String, String)> = Vec::new();
    fields.push(("chat_id".to_string(), chat_id.to_string()));
    fields.push(("title".to_string(), title));
    fields.push(("performer".to_string(), performer));
    fields.push(("disable_notification".to_string(), "true".to_string()));
    assert(fields@.map_values(|p: (String, String)| (p.0@, p.1@)) =~= upload_fields(
        chat_id@,
        song_performer(full_song_name@),
        song_title(full_song_name@),
    ));
    UploadRequest { endpoint, file_name, fields }
}

/// `text` with every occurrence of `secret` replaced by as many `X` as
/// `secret` has bytes (how the bot token is hidden in a failed request's URL).
pub fn mask_secret(text: &str, secret: &str) -> (r: String)
    ensures
        r@ == masked(text@, secret@, secret.len() as nat),
{
    let cs = chars_of(text);
    let ss = chars_of(secret);
    if ss.len() == 0 {
        return string_of(&cs);
    }
    let n = secret.len();
    let mut xs: Vec<char> = Vec::new();
    let mut k: usize = 0;
    assert(xs@ =~= x_run(0));
    while k < n
        invariant
            k <= n,
            n == secret.len(),
            xs@ == x_run(k as nat),
        decreases n - k,
    {
        xs.push('X');
        k = k + 1;
        assert(xs@ =~= x_run(k as nat));
    }
    let r = replace_chars(&cs, &ss, &xs);
    string_of(&r)
}

/// What the library reads of Telegram's JSON reply: the value of its
/// `ok` member (absent, not a boolean, or a boolean) and the reply
/// rendered back as JSON text.
pub struct TelegramReply {
    pub ok: Option<Option<bool>>,
    pub rendered: String,
}

/// The `ok` member and the rendered text of the JSON reply that
/// `serde_json` reads from `body`; `None` where `body` is not JSON.
pub uninterp spec fn telegram_reply(body: Seq<u8>) -> Option<(Option<Option<bool>>, Seq<char>)>;

/// `serde_json::from_slice` into a `serde_json::Value`, then `Value::get`
/// of `ok` with `Value::as_bool`, and `Value::to_string` for the text.
#[verifier::external_body]
fn parse_reply(body: &[u8]) -> (r: Option<TelegramReply>)
    ensures
        match r {
            Some(t) => telegram_reply(body@) == Some((t.ok, t.rendered@)),
            None => telegram_reply(body@) is None,
        },
{
    serde_json::from_slice::<serde_json::Value>(body).ok().map(
        |v| TelegramReply { ok: v.get("ok").map(|f| f.as_bool()), rendered: v.to_string() },
    )
}

/// The verdict on a reply: accepted exactly when its `ok` member is `true`;
/// otherwise the message of the error.
pub open spec fn reply_verdict(reply: Option<(Option<Option<bool>>, Seq<char>)>) -> Result<(), Seq<char>> {
    match reply {
        None => Err("Response json parsing error"@),
        Some((ok, text)) => if ok == Some(Some(true)) {
            Ok(())
        } else {
            Err(text)
        },
    }
}

/// The abstract outcome of reading a reply.
pub open spec fn reply_outcome(r: Result<(), TelegramError>) -> Result<(), Seq<char>> {
    match r {
        Ok(()) => Ok(()),
        Err(TelegramError::ResponseError(s)) => Err(s@),
        Err(TelegramError::RequestError(_)) => Err(Seq::empty()),
    }
}

/// Accepts a parsed reply whose `ok` member is `true`, and refuses any
/// other with the reply's text, or a reply that was not JSON.
pub fn check_reply(reply: Option<TelegramReply>) -> (r: Result<(), TelegramError>)
    ensures
        reply_outcome(r) == reply_verdict(
            match reply {
                Some(t) => Some((t.ok, t.rendered@)),
                None => None,
            },
        ),
        r matches Err(e) ==> e is ResponseError,
{
    match reply {
        None => Err(TelegramError::ResponseError("Response json parsing error".to_string())),
        Some(t) => {
            let accepted = match t.ok {
                Some(Some(b)) => b,
                _ => false,
            };
            if accepted {
                Ok(())
            } else {
                Err(TelegramError::ResponseError(t.rendered))
            }
        },
    }
}

/// Reads the body of Telegram's reply to an upload.
pub fn read_reply(body: &[u8]) -> (r: Result<(), TelegramError>)
    ensures
        reply_outcome(r) == reply_verdict(telegram_reply(body@)),
        r matches Err(e) ==> e is ResponseError,
{
    check_reply(parse_reply(body))
}

} // verus!
