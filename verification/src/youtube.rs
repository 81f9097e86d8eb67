//! The decisions taken for a channel's newest video before it is
//! downloaded, and the arguments of the download.

use vstd::prelude::*;
use crate::seen::{record_seen, seen_line, SeenSet};
use crate::structs::{SpecVideo, VideoError, VideoFault, VideoInfo};
use crate::text::{append_str, contains_str, find};
use crate::title::{any_match, screened_title, validate_title, Regexes, SpecRegexes};

verus! {

/// Whether a video URL points at a YouTube short.
pub open spec fn is_short(url: Seq<char>) -> bool {
    find(url, "/shorts/"@) is Some
}

/// What becomes of a channel's newest video `v` before download: shorts
/// are refused, then videos whose ID was seen, then titles that fail
/// screening; a video whose screened title was seen is refused too, else
/// the video goes on under its screened title.
pub open spec fn screened_video(
    v: SpecVideo,
    rx: SpecRegexes,
    ids: Set<Seq<char>>,
    titles: Set<Seq<char>>,
) -> Result<SpecVideo, VideoFault> {
    if is_short(v.url) {
        Err(VideoFault::IsShort(v))
    } else if ids.contains(v.id) {
        Err(VideoFault::SeenVideo(v))
    } else {
        match screened_title(v.title, rx) {
            None => Err(VideoFault::TitleValidationFailed(v)),
            Some(t) => {
                let nv = SpecVideo { title: t, id: v.id, url: v.url };
                if titles.contains(t) {
                    Err(VideoFault::SeenVideo(nv))
                } else {
                    Ok(nv)
                }
            },
        }
    }
}

/// The abstract outcome of screening a video.
pub open spec fn screening_outcome(r: Result<VideoInfo, VideoError>) -> Result<SpecVideo, VideoFault> {
    match r {
        Ok(v) => Ok(v@),
        Err(e) => Err(e.fault()),
    }
}

/// Decides whether a channel's newest video is to be posted, and under
/// which title (the decisions taken before the download).
pub fn screen_video(
    video_info: VideoInfo,
    regexes: &Regexes,
    seen_ids: &SeenSet,
    seen_titles: &SeenSet,
) -> (r: Result<VideoInfo, VideoError>)
    ensures
        screening_outcome(r) == screened_video(video_info@, regexes@, seen_ids@, seen_titles@),
        (screened_title(video_info@.title, regexes@) matches Some(t) && seen_titles@.contains(t)) ==> r is Err,
        seen_ids@.contains(video_info.id@) ==> r is Err,
        r matches Ok(v) ==> !seen_ids@.contains(v.id@) && !seen_titles@.contains(v.title@),
{
    if contains_str(video_info.url.as_str(), "/shorts/") {
        return Err(VideoError::IsShort(video_info));
    }
    if seen_ids.contains(video_info.id.as_str()) {
        return Err(VideoError::SeenVideo(video_info));
    }
    let validated_title = match validate_title(&video_info, regexes) {
        Ok(t) => t,
        Err(e) => return Err(e),
    };
    let video_info = VideoInfo { title: validated_title, id: video_info.id, url: video_info.url };
    if seen_titles.contains(video_info.title.as_str()) {
        return Err(VideoError::SeenVideo(video_info));
    }
    Ok(video_info)
}

/// A video that was taken and then recorded as posted is refused as seen
/// when it turns up again: recording its ID and screened title keeps it
/// from being posted twice.
pub proof fn law_no_repost(v: SpecVideo, rx: SpecRegexes, ids: Set<Seq<char>>, titles: Set<Seq<char>>)
    requires
        screened_video(v, rx, ids, titles) is Ok,
    ensures
        screened_video(v, rx, ids.insert(screened_video(v, rx, ids, titles)->Ok_0.id), titles.insert(
            screened_video(v, rx, ids, titles)->Ok_0.title,
        )) == Err::<SpecVideo, VideoFault>(VideoFault::SeenVideo(v)),
{
}

/// Any other video with a recorded ID is refused as seen, unless it is a
/// short, which is refused as such first.
pub proof fn law_seen_id_refused(v: SpecVideo, rx: SpecRegexes, ids: Set<Seq<char>>, titles: Set<Seq<char>>)
    requires
        ids.contains(v.id),
    ensures
        screened_video(v, rx, ids, titles) == if is_short(v.url) {
            Err::<SpecVideo, VideoFault>(VideoFault::IsShort(v))
        } else {
            Err(VideoFault::SeenVideo(v))
        },
{
}

/// A video whose screened title was already posted is never taken again,
/// whatever else is recorded: it is refused as seen (or as a short).
pub proof fn law_seen_title_refused(
    v: SpecVideo,
    rx: SpecRegexes,
    ids: Set<Seq<char>>,
    titles: Set<Seq<char>>,
    t: Seq<char>,
)
    requires
        screened_title(v.title, rx) == Some(t),
        titles.contains(t),
    ensures
        screened_video(v, rx, ids, titles) matches Err(f) && (f is IsShort || f is SeenVideo),
{
}

/// A short is always refused as a short.
pub proof fn law_short_refused(v: SpecVideo, rx: SpecRegexes, ids: Set<Seq<char>>, titles: Set<Seq<char>>)
    requires
        is_short(v.url),
    ensures
        screened_video(v, rx, ids, titles) == Err::<SpecVideo, VideoFault>(VideoFault::IsShort(v)),
{
}

/// A video is taken only when it is no short, its ID and its screened title
/// were not seen, and its title passes screening; it keeps its ID and URL
/// and carries the screened title.
pub proof fn law_taken_video(v: SpecVideo, rx: SpecRegexes, ids: Set<Seq<char>>, titles: Set<Seq<char>>)
    ensures
        screened_video(v, rx, ids, titles) is Ok <==> (!is_short(v.url) && !ids.contains(v.id) && screened_title(
            v.title,
            rx,
        ) is Some && !titles.contains(screened_title(v.title, rx)->0)),
        screened_video(v, rx, ids, titles) matches Ok(nv) ==> nv.id == v.id && nv.url == v.url && Some(nv.title)
            == screened_title(v.title, rx),
{
}

/// A title that one of the banned patterns matches is refused.
pub proof fn law_banned_title_refused(title: Seq<char>, rx: SpecRegexes)
    requires
        any_match(rx.banned, title),
    ensures
        screened_title(title, rx) is None,
{
}

/// The file that yt-dlp writes a video's audio to: `<dir>/<id>.mp3`.
pub open spec fn download_target(dir: Seq<char>, id: Seq<char>) -> Seq<char> {
    dir + "/"@ + id + ".mp3"@
}

/// The file that yt-dlp writes a video's audio to: `<dir>/<id>.mp3`.
pub fn download_path(download_dir: &str, video_info: &VideoInfo) -> (r: String)
    ensures
        r@ == download_target(download_dir@, video_info.id@),
{
    let mut r = String::new();
    append_str(&mut r, download_dir);
    append_str(&mut r, "/");
    append_str(&mut r, video_info.id.as_str());
    append_str(&mut r, ".mp3");
    r
}

/// The arguments yt-dlp is called with to fetch the audio of `url` as MP3
/// into `target`.
pub open spec fn yt_dlp_arguments(target: Seq<char>, url: Seq<char>) -> Seq<Seq<char>> {
    seq!["-x"@, "-f"@, "bestaudio"@, "--audio-format"@, "mp3"@, "--no-playlist"@, "-o"@, target, url]
}

/// The arguments yt-dlp is called with to fetch the audio of `url` as MP3
/// into `target`.
pub fn yt_dlp_args(target: &str, url: &str) -> (r: Vec<String>)
    ensures
        r@.map_values(|s: String| s@) == yt_dlp_arguments(target@, url@),
{
    let mut r: Vec<String> = Vec::new();
    r.push("-x".to_string());
    r.push("-f".to_string());
    r.push("bestaudio".to_string());
    r.push("--audio-format".to_string());
    r.push("mp3".to_string());
    r.push("--no-playlist".to_string());
    r.push("-o".to_string());
    r.push(target.to_string());
    r.push(url.to_string());
    assert(r@.map_values(|s: String| s@) =~= yt_dlp_arguments(target@, url@));
    r
}

/// Records a video as posted once its upload went through and its file was
/// removed, returning the line for the seen log; where the post did not go
/// through, the seen sets stay as they were and nothing is to be logged.
pub fn finish_post(
    posted: bool,
    seen_ids: &mut SeenSet,
    seen_titles: &mut SeenSet,
    video_info: &VideoInfo,
) -> (r: Option<String>)
    ensures
        posted ==> final(seen_ids)@ == old(seen_ids)@.insert(video_info.id@),
        posted ==> final(seen_titles)@ == old(seen_titles)@.insert(video_info.title@),
        posted ==> (r matches Some(line) && line@ == seen_line(video_info.id@, video_info.title@)),
        !posted ==> final(seen_ids)@ == old(seen_ids)@ && final(seen_titles)@ == old(seen_titles)@ && r is None,
{
    if posted {
        Some(record_seen(seen_ids, seen_titles, video_info))
    } else {
        None
    }
}

/// Where the posting of a screened video stands.
#[derive(Debug, Clone, Copy, PartialEq, Eq, Structural)]
pub enum PostStage {
    /// Nothing done yet: the audio is to be downloaded.
    Start,
    /// The audio file was downloaded.
    Downloaded,
    /// The audio file was uploaded.
    Uploaded,
    /// The upload failed; the file is still there.
    UploadFailed,
    /// The upload went through and the file was removed.
    Removed,
    /// The video was recorded as posted.
    Finished,
    /// A step failed; nothing more is done.
    Aborted,
}

/// The next step to take when posting a video.
#[derive(Debug, Clone, Copy, PartialEq, Eq, Structural)]
pub enum PostAction {
    /// Fetch the audio with yt-dlp.
    Download,
    /// Send the audio file to Telegram.
    Upload,
    /// Delete the downloaded file.
    RemoveFile,
    /// Add the video to the seen sets and the seen log.
    Record,
    /// Stop: the posting is over.
    Stop,
}

/// How a step went.
#[derive(Debug, Clone, Copy, PartialEq, Eq, Structural)]
pub enum PostEvent {
    /// The step went through.
    Succeeded,
    /// The step failed.
    Failed,
}

/// The step asked for in each stage.
pub open spec fn post_action(stage: PostStage) -> PostAction {
    match stage {
        PostStage::Start => PostAction::Download,
        PostStage::Downloaded => PostAction::Upload,
        PostStage::Uploaded => PostAction::RemoveFile,
        PostStage::UploadFailed => PostAction::RemoveFile,
        PostStage::Removed => PostAction::Record,
        PostStage::Finished => PostAction::Stop,
        PostStage::Aborted => PostAction::Stop,
    }
}

/// The stage that follows `stage` once its step went as `event` says: a
/// failed upload still has the file removed, and then the posting ends;
/// any other failure ends it at once.
pub open spec fn post_next(stage: PostStage, event: PostEvent) -> PostStage {
    match (stage, event) {
        (PostStage::Start, PostEvent::Succeeded) => PostStage::Downloaded,
        (PostStage::Downloaded, PostEvent::Succeeded) => PostStage::Uploaded,
        (PostStage::Downloaded, PostEvent::Failed) => PostStage::UploadFailed,
        (PostStage::Uploaded, PostEvent::Succeeded) => PostStage::Removed,
        (PostStage::Removed, PostEvent::Succeeded) => PostStage::Finished,
        (PostStage::Finished, _) => PostStage::Finished,
        _ => PostStage::Aborted,
    }
}

/// The stage reached from `Start` after the steps went as `events` say.
pub open spec fn stage_after(events: Seq<PostEvent>) -> PostStage
    decreases events.len(),
{
    if events.len() == 0 {
        PostStage::Start
    } else {
        post_next(stage_after(events.drop_last()), events.last())
    }
}

/// The step to take in `stage`.
pub fn next_post_action(stage: PostStage) -> (a: PostAction)
    ensures
        a == post_action(stage),
{
    match stage {
        PostStage::Start => PostAction::Download,
        PostStage::Downloaded => PostAction::Upload,
        PostStage::Uploaded => PostAction::RemoveFile,
        PostStage::UploadFailed => PostAction::RemoveFile,
        PostStage::Removed => PostAction::Record,
        PostStage::Finished => PostAction::Stop,
        PostStage::Aborted => PostAction::Stop,
    }
}

/// The stage that follows `stage` once its step went as `event` says.
pub fn advance_post(stage: PostStage, event: PostEvent) -> (s: PostStage)
    ensures
        s == post_next(stage, event),
{
    match (stage, event) {
        (PostStage::Start, PostEvent::Succeeded) => PostStage::Downloaded,
        (PostStage::Downloaded, PostEvent::Succeeded) => PostStage::Uploaded,
        (PostStage::Downloaded, PostEvent::Failed) => PostStage::UploadFailed,
        (PostStage::Uploaded, PostEvent::Succeeded) => PostStage::Removed,
        (PostStage::Removed, PostEvent::Succeeded) => PostStage::Finished,
        (PostStage::Finished, _) => PostStage::Finished,
        _ => PostStage::Aborted,
    }
}

/// The stages reached after each number of steps, and which runs reach
/// the stages before the record.
proof fn lemma_post_stages(events: Seq<PostEvent>)
    ensures
        events.len() == 0 ==> stage_after(events) == PostStage::Start,
        events.len() == 1 ==> (stage_after(events) == PostStage::Downloaded <==> events[0] == PostEvent::Succeeded),
        events.len() == 1 ==> stage_after(events) == PostStage::Downloaded || stage_after(events) == PostStage::Aborted,
        events.len() == 2 ==> (stage_after(events) == PostStage::Uploaded <==> events[0] == PostEvent::Succeeded
            && events[1] == PostEvent::Succeeded),
        events.len() == 2 ==> (stage_after(events) == PostStage::UploadFailed <==> events[0] == PostEvent::Succeeded
            && events[1] == PostEvent::Failed),
        events.len() == 2 ==> stage_after(events) == PostStage::Uploaded || stage_after(events)
            == PostStage::UploadFailed || stage_after(events) == PostStage::Aborted,
        events.len() == 3 ==> (stage_after(events) == PostStage::Removed <==> events[0] == PostEvent::Succeeded
            && events[1] == PostEvent::Succeeded && events[2] == PostEvent::Succeeded),
        events.len() == 3 ==> stage_after(events) == PostStage::Removed || stage_after(events)
            == PostStage::Aborted,
        events.len() >= 4 ==> stage_after(events) == PostStage::Finished || stage_after(events)
            == PostStage::Aborted,
    decreases events.len(),
{
    if events.len() > 0 {
        let p = events.drop_last();
        lemma_post_stages(p);
        assert(stage_after(events) == post_next(stage_after(p), events.last()));
        assert forall|k: int| 0 <= k < p.len() implies p[k] == events[k] by {}
    }
}

/// A video is recorded as posted only after its download, its upload and
/// the removal of its file all went through, and then always.
pub proof fn law_record_only_after_upload_and_removal(events: Seq<PostEvent>)
    ensures
        post_action(stage_after(events)) == PostAction::Record <==> (events.len() == 3 && events[0]
            == PostEvent::Succeeded && events[1] == PostEvent::Succeeded && events[2] == PostEvent::Succeeded),
{
    lemma_post_stages(events);
}

/// Once downloaded, the file is removed whatever the upload gave.
pub proof fn law_file_removed_after_upload(download: PostEvent, upload: PostEvent)
    requires
        download == PostEvent::Succeeded,
    ensures
        post_action(stage_after(seq![download, upload])) == PostAction::RemoveFile,
{
    let e = seq![download, upload];
    lemma_post_stages(e);
}

/// How the processing of one channel ended in a round.
#[derive(Debug, Clone, Copy, PartialEq, Eq, Structural)]
pub enum ChannelOutcome {
    /// The newest video was posted, or there was nothing to do.
    Posted,
    /// The video was skipped (seen before, or its title was refused).
    Skipped,
    /// yt-dlp failed to fetch the audio.
    DownloadFailed,
    /// Some other step failed.
    Failed,
}

/// Whether yt-dlp is to be upgraded after a round: when automatic updates
/// are on and some download in the round failed.
pub fn needs_upgrade(outcomes: &Vec<ChannelOutcome>, auto_update: bool) -> (r: bool)
    ensures
        r == (auto_update && exists|k: int| 0 <= k < outcomes@.len() && outcomes@[k] == ChannelOutcome::DownloadFailed),
{
    let n = outcomes.len();
    let mut failed = false;
    let mut k: usize = 0;
    while k < n
        invariant
            n == outcomes.len(),
            k <= n,
            failed == exists|t: int| 0 <= t < k && outcomes@[t] == ChannelOutcome::DownloadFailed,
        decreases n - k,
    {
        if outcomes[k] == ChannelOutcome::DownloadFailed {
            failed = true;
        }
        k = k + 1;
    }
    auto_update && failed
}

} // verus!
