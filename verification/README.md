# riaaudio

Watches YouTube channels and posts the audio of each new music video to a
Telegram chat. The decisions are a Verus-verified library (`src/`); the
program around it (`app/`) does the network, file and process work.

- `src/text.rs` — trimming, searching, splitting, replacing and decimal
  numerals on character sequences, with exact specifications.
- `src/feed.rs` — decoding a channel's feed and finding its newest video.
- `src/feed_guard.rs` — which feed bodies can be handed to the feed parser
  without reaching its panicking paths.
- `src/title.rs` — screening titles with regular expressions and deleting
  removable bracketed decorations.
- `src/youtube.rs` — the per-video decisions taken before a download, and
  the order of download, upload, file removal and record.
- `src/seen.rs` — the sets of seen IDs and titles and their `id|title` log.
- `src/telegram.rs` — the upload request, token masking and reply check.
- `src/structs.rs`, `src/errors.rs` — records and error types.

The title patterns are read by the program from the YAML file named by
`RIA_PATTERNS` (keys `title`, `brackets`, `banned`, `removed`).
