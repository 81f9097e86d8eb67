use riaaudio::structs::{PipxOperation, ProcessOutput, VideoError, VideoInfo};

fn info() -> VideoInfo {
    VideoInfo {
        title: "Artist - Song".to_string(),
        id: "abc123".to_string(),
        url: "https://www.youtube.com/watch?v=abc123".to_string(),
    }
}

#[test]
fn video_info_description() {
    assert_eq!(info().describe(), "{ id: abc123, title: Artist - Song }");
    assert_eq!(info().duplicate().describe(), info().describe());
}

#[test]
fn video_error_messages() {
    assert_eq!(VideoError::IsShort(info()).message(), "Video was a short: { id: abc123, title: Artist - Song }");
    assert_eq!(
        VideoError::TitleValidationFailed(info()).message(),
        "Title validation failed: { id: abc123, title: Artist - Song }"
    );
    assert_eq!(VideoError::SeenVideo(info()).message(), "Video is already seen: { id: abc123, title: Artist - Song }");
}

#[test]
fn pipx_operation_commands() {
    assert_eq!(PipxOperation::Install.as_ref(), "install");
    assert_eq!(PipxOperation::Upgrade.as_ref(), "upgrade");
}

#[test]
fn process_output_report() {
    let out = ProcessOutput::new(Some(1), b"out\n", b"err\n");
    assert_eq!(out.render(), "====EXIT CODE====\n1====STDOUT====\nout\n====STDERR====\nerr\n");
}

#[test]
fn process_output_signal_and_invalid_utf8() {
    let out = ProcessOutput::new(None, &[0x66, 0xff, 0x6f], b"");
    assert_eq!(out.render(), "====EXIT CODE====\n255====STDOUT====\nf\u{fffd}o====STDERR====\n");
    let out = ProcessOutput::new(Some(-2), b"", b"");
    assert_eq!(out.render(), "====EXIT CODE====\n-2====STDOUT====\n====STDERR====\n");
}

#[test]
fn pipx_arguments() {
    assert_eq!(riaaudio::structs::pipx_args(PipxOperation::Install), vec!["install", "yt-dlp"]);
    assert_eq!(riaaudio::structs::pipx_args(PipxOperation::Upgrade), vec!["upgrade", "yt-dlp"]);
}
