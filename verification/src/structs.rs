//! The plain records that the rest of the library passes around.

use vstd::prelude::*;
use crate::text::{append_str, fmt_i64, signed_decimal};
use crate::title::Regexes;

verus! {

/// The channel list read from the configuration file.
pub struct ParserConfig {
    pub channels: Vec<String>,
}

/// The settings the program runs with.
pub struct AppConfig {
    pub download_dir: String,
    pub config_file: String,
    pub seen_file: String,
    pub auto_update: bool,
    pub telegram_token: String,
    pub telegram_chat_id: String,
    pub regexes: Regexes,
}

/// What `pipx` is asked to do with yt-dlp.
#[derive(Debug, Clone, Copy, PartialEq, Eq, Structural)]
pub enum PipxOperation {
    Install,
    Upgrade,
}

impl PipxOperation {
    /// The `pipx` sub-command for this operation.
    pub open spec fn command(self) -> Seq<char> {
        match self {
            PipxOperation::Install => "install"@,
            PipxOperation::Upgrade => "upgrade"@,
        }
    }

    /// The `pipx` sub-command for this operation.
    pub fn as_ref(&self) -> (r: &'static str)
        ensures
            r@ == self.command(),
    {
        match self {
            PipxOperation::Install => "install",
            PipxOperation::Upgrade => "upgrade",
        }
    }
}

/// The arguments `pipx` is called with: the sub-command, then `yt-dlp`.
pub open spec fn pipx_arguments(op: PipxOperation) -> Seq<Seq<char>> {
    seq![op.command(), "yt-dlp"@]
}

/// The arguments `pipx` is called with: the sub-command, then `yt-dlp`.
pub fn pipx_args(op: PipxOperation) -> (r: Vec<String>)
    ensures
        r@.map_values(|s: String| s@) == pipx_arguments(op),
{
    let mut r: Vec<String> = Vec::new();
    r.push(op.as_ref().to_string());
    r.push("yt-dlp".to_string());
    assert(r@.map_values(|s: String| s@) =~= pipx_arguments(op));
    r
}

/// The abstract value of a [`VideoInfo`].
pub struct SpecVideo {
    pub title: Seq<char>,
    pub id: Seq<char>,
    pub url: Seq<char>,
}

/// The newest video of a channel, as found in its feed.
#[derive(Debug, Clone)]
pub struct VideoInfo {
    pub title: String,
    pub id: String,
    pub url: String,
}

impl View for VideoInfo {
    type V = SpecVideo;

    open spec fn view(&self) -> SpecVideo {
        SpecVideo { title: self.title@, id: self.id@, url: self.url@ }
    }
}

/// The text that describes a video: `{ id: <id>, title: <title> }`.
pub open spec fn video_description(v: SpecVideo) -> Seq<char> {
    "{ id: "@ + v.id + ", title: "@ + v.title + " }"@
}

impl VideoInfo {
    /// A copy of this record with the same contents.
    pub fn duplicate(&self) -> (r: VideoInfo)
        ensures
            r@ == self@,
    {
        VideoInfo { title: self.title.clone(), id: self.id.clone(), url: self.url.clone() }
    }

    /// The text that describes this video (its `Display` form).
    pub fn describe(&self) -> (r: String)
        ensures
            r@ == video_description(self@),
    {
        let mut r = String::new();
        append_str(&mut r, "{ id: ");
        append_str(&mut r, self.id.as_str());
        append_str(&mut r, ", title: ");
        append_str(&mut r, self.title.as_str());
        append_str(&mut r, " }");
        r
    }
}

/// Why a video was not taken.
#[derive(Debug)]
pub enum VideoError {
    IsShort(VideoInfo),
    TitleValidationFailed(VideoInfo),
    SeenVideo(VideoInfo),
}

/// The abstract value of a [`VideoError`].
pub enum VideoFault {
    IsShort(SpecVideo),
    TitleValidationFailed(SpecVideo),
    SeenVideo(SpecVideo),
}

impl VideoError {
    /// The video the error is about.
    pub open spec fn video(self) -> SpecVideo {
        match self {
            VideoError::IsShort(v) => v@,
            VideoError::TitleValidationFailed(v) => v@,
            VideoError::SeenVideo(v) => v@,
        }
    }

    /// The variant of this error and the video it is about.
    pub open spec fn fault(self) -> VideoFault {
        match self {
            VideoError::IsShort(v) => VideoFault::IsShort(v@),
            VideoError::TitleValidationFailed(v) => VideoFault::TitleValidationFailed(v@),
            VideoError::SeenVideo(v) => VideoFault::SeenVideo(v@),
        }
    }

    /// The error's message (its `Display` form).
    pub open spec fn spec_message(self) -> Seq<char> {
        match self {
            VideoError::IsShort(v) => "Video was a short: "@ + video_description(v@),
            VideoError::TitleValidationFailed(v) => "Title validation failed: "@ + video_description(v@),
            VideoError::SeenVideo(v) => "Video is already seen: "@ + video_description(v@),
        }
    }

    /// The error's message (its `Display` form).
    pub fn message(&self) -> (r: String)
        ensures
            r@ == self.spec_message(),
    {
        let (mut r, v) = match self {
            VideoError::IsShort(v) => (String::new(), v),
            VideoError::TitleValidationFailed(v) => (String::new(), v),
            VideoError::SeenVideo(v) => (String::new(), v),
        };
        match self {
            VideoError::IsShort(_) => append_str(&mut r, "Video was a short: "),
            VideoError::TitleValidationFailed(_) => append_str(&mut r, "Title validation failed: "),
            VideoError::SeenVideo(_) => append_str(&mut r, "Video is already seen: "),
        }
        let d = v.describe();
        append_str(&mut r, d.as_str());
        r
    }
}

/// The text that `String::from_utf8_lossy` makes of `bytes`: the bytes
/// decoded as UTF-8, with each invalid sequence replaced by U+FFFD.
pub uninterp spec fn utf8_lossy(bytes: Seq<u8>) -> Seq<char>;

/// `String::from_utf8_lossy`, made an owned `String`.
#[verifier::external_body]
fn decode_lossy(bytes: &[u8]) -> (r: String)
    ensures
        r@ == utf8_lossy(bytes@),
{
    String::from_utf8_lossy(bytes).to_string()
}

/// The abstract value of a [`ProcessOutput`].
pub struct SpecProcessOutput {
    pub status: int,
    pub stdout: Seq<char>,
    pub stderr: Seq<char>,
}

/// What a finished child process left behind: its exit code and its two
/// output streams as text.
#[derive(Debug)]
pub struct ProcessOutput {
    status: i32,
    stdout: String,
    stderr: String,
}

impl View for ProcessOutput {
    type V = SpecProcessOutput;

    closed spec fn view(&self) -> SpecProcessOutput {
        SpecProcessOutput { status: self.status as int, stdout: self.stdout@, stderr: self.stderr@ }
    }
}

/// The report printed for a failed process.
pub open spec fn process_report(o: SpecProcessOutput) -> Seq<char> {
    "====EXIT CODE====\n"@ + signed_decimal(o.status) + "====STDOUT====\n"@ + o.stdout
        + "====STDERR====\n"@ + o.stderr
}

impl ProcessOutput {
    /// The record of a finished process from its exit code (`None` where it
    /// was ended by a signal, which is recorded as 255) and the raw bytes of
    /// its two output streams.
    pub fn new(code: Option<i32>, stdout: &[u8], stderr: &[u8]) -> (r: ProcessOutput)
        ensures
            r@.status == match code {
                Some(c) => c as int,
                None => 255,
            },
            r@.stdout == utf8_lossy(stdout@),
            r@.stderr == utf8_lossy(stderr@),
    {
        let status = match code {
            Some(c) => c,
            None => 255,
        };
        ProcessOutput { status, stdout: decode_lossy(stdout), stderr: decode_lossy(stderr) }
    }

    /// The report printed for this output (its `Display` form).
    pub fn render(&self) -> (r: String)
        ensures
            r@ == process_report(self@),
    {
        let mut r = String::new();
        append_str(&mut r, "====EXIT CODE====\n");
        let code = fmt_i64(self.status as i64);
        append_str(&mut r, code.as_str());
        append_str(&mut r, "====STDOUT====\n");
        append_str(&mut r, self.stdout.as_str());
        append_str(&mut r, "====STDERR====\n");
        append_str(&mut r, self.stderr.as_str());
        r
    }
}

} // verus!
