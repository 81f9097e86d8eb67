use riaaudio::youtube::{advance_post, finish_post, needs_upgrade, next_post_action, ChannelOutcome, PostAction, PostEvent, PostStage};
use riaaudio::seen::{record_seen, SeenSet};
use riaaudio::structs::{VideoError, VideoInfo};
use riaaudio::title::{Pattern, Regexes};
use riaaudio::youtube::{download_path, screen_video, yt_dlp_args};

fn regexes() -> Regexes {
    Regexes {
        title_regex: Pattern::new(r"^.+ - .+$").unwrap(),
        bracket_regexes: vec![Pattern::new(r"\s*\([^)]*\)").unwrap()],
        banned_regexes: vec![Pattern::new(r"(?i)best of").unwrap()],
        removed_regexes: vec![Pattern::new(r"(?i)official").unwrap()],
    }
}

fn video(id: &str, title: &str, url: &str) -> VideoInfo {
    VideoInfo { title: title.to_string(), id: id.to_string(), url: url.to_string() }
}

fn watch(id: &str, title: &str) -> VideoInfo {
    video(id, title, &format!("https://www.youtube.com/watch?v={}", id))
}

#[test]
fn shorts_are_refused_first() {
    let mut ids = SeenSet::new();
    ids.insert("s1".to_string());
    let v = video("s1", "bad title", "https://www.youtube.com/shorts/s1");
    assert!(matches!(screen_video(v, &regexes(), &ids, &SeenSet::new()), Err(VideoError::IsShort(_))));
}

#[test]
fn seen_ids_are_refused_before_title_checks() {
    let mut ids = SeenSet::new();
    ids.insert("v1".to_string());
    match screen_video(watch("v1", "no dash"), &regexes(), &ids, &SeenSet::new()) {
        Err(VideoError::SeenVideo(v)) => assert_eq!(v.title, "no dash"),
        other => panic!("unexpected {:?}", other),
    }
}

#[test]
fn failing_titles_are_refused() {
    let r = screen_video(watch("v2", "Best Of - 2020"), &regexes(), &SeenSet::new(), &SeenSet::new());
    assert!(matches!(r, Err(VideoError::TitleValidationFailed(_))));
}

#[test]
fn seen_titles_are_refused_after_cleaning() {
    let mut titles = SeenSet::new();
    titles.insert("A - B".to_string());
    match screen_video(watch("v3", "A - B (Official Video)"), &regexes(), &SeenSet::new(), &titles) {
        Err(VideoError::SeenVideo(v)) => {
            assert_eq!(v.title, "A - B");
            assert_eq!(v.id, "v3");
        },
        other => panic!("unexpected {:?}", other),
    }
}

#[test]
fn accepted_video_carries_the_cleaned_title() {
    let v = screen_video(watch("v4", "A - B (Official Video)"), &regexes(), &SeenSet::new(), &SeenSet::new()).unwrap();
    assert_eq!(v.title, "A - B");
    assert_eq!(v.id, "v4");
    assert_eq!(v.url, "https://www.youtube.com/watch?v=v4");
}

#[test]
fn a_recorded_video_is_not_posted_again() {
    let mut ids = SeenSet::new();
    let mut titles = SeenSet::new();
    let v = screen_video(watch("v5", "A - C"), &regexes(), &ids, &titles).unwrap();
    record_seen(&mut ids, &mut titles, &v);
    assert!(matches!(screen_video(watch("v5", "A - C"), &regexes(), &ids, &titles), Err(VideoError::SeenVideo(_))));
    assert!(matches!(screen_video(watch("v6", "A - C"), &regexes(), &ids, &titles), Err(VideoError::SeenVideo(_))));
}

#[test]
fn download_arguments() {
    let target = download_path("downloads", &watch("abc", "A - B"));
    assert_eq!(target, "downloads/abc.mp3");
    assert_eq!(
        yt_dlp_args(&target, "https://u"),
        vec!["-x", "-f", "bestaudio", "--audio-format", "mp3", "--no-playlist", "-o", "downloads/abc.mp3", "https://u"]
    );
}

#[test]
fn seen_sets_change_only_after_a_post() {
    let mut ids = SeenSet::new();
    let mut titles = SeenSet::new();
    let v = watch("p1", "A - P");
    assert_eq!(finish_post(false, &mut ids, &mut titles, &v), None);
    assert_eq!(ids.len() + titles.len(), 0);
    assert_eq!(finish_post(true, &mut ids, &mut titles, &v), Some("p1|A - P\n".to_string()));
    assert!(ids.contains("p1") && titles.contains("A - P"));
}

#[test]
fn upgrade_after_a_failed_download_only_with_auto_update() {
    let round = vec![ChannelOutcome::Posted, ChannelOutcome::DownloadFailed, ChannelOutcome::Skipped];
    assert!(needs_upgrade(&round, true));
    assert!(!needs_upgrade(&round, false));
    assert!(!needs_upgrade(&vec![ChannelOutcome::Failed, ChannelOutcome::Posted], true));
    assert!(!needs_upgrade(&vec![], true));
}

fn run_post(events: &[PostEvent]) -> (Vec<PostAction>, PostStage) {
    let mut stage = PostStage::Start;
    let mut actions = Vec::new();
    let mut k = 0;
    loop {
        let a = next_post_action(stage);
        actions.push(a);
        if a == PostAction::Stop || k == events.len() {
            return (actions, stage);
        }
        stage = advance_post(stage, events[k]);
        k += 1;
    }
}

#[test]
fn posting_runs_download_upload_remove_record() {
    let ok = PostEvent::Succeeded;
    let (actions, stage) = run_post(&[ok, ok, ok, ok]);
    assert_eq!(
        actions,
        vec![PostAction::Download, PostAction::Upload, PostAction::RemoveFile, PostAction::Record, PostAction::Stop]
    );
    assert_eq!(stage, PostStage::Finished);
}

#[test]
fn failed_upload_still_removes_the_file_and_records_nothing() {
    let (actions, stage) = run_post(&[PostEvent::Succeeded, PostEvent::Failed, PostEvent::Succeeded]);
    assert_eq!(actions, vec![PostAction::Download, PostAction::Upload, PostAction::RemoveFile, PostAction::Stop]);
    assert_eq!(stage, PostStage::Aborted);
}

#[test]
fn failed_download_or_removal_stops_the_post() {
    let (actions, _) = run_post(&[PostEvent::Failed]);
    assert_eq!(actions, vec![PostAction::Download, PostAction::Stop]);
    let (actions, _) = run_post(&[PostEvent::Succeeded, PostEvent::Succeeded, PostEvent::Failed]);
    assert_eq!(actions, vec![PostAction::Download, PostAction::Upload, PostAction::RemoveFile, PostAction::Stop]);
    assert_eq!(advance_post(PostStage::Removed, PostEvent::Failed), PostStage::Aborted);
}
