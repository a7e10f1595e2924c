use home_camera::error::AppError;
use home_camera::recorder::{
    ffmpeg_args, ffmpeg_failure, ffmpeg_failure_reason, ffmpeg_start_failure, recording_seconds,
    text_lines, validate_rtsp_url,
};

fn recording_message(e: AppError) -> String {
    match e {
        AppError::Recording(m) => m,
        other => panic!("unexpected {other:?}"),
    }
}

#[test]
fn rtsp_urls_are_validated() {
    assert!(validate_rtsp_url("rtsp://camera.local/live").is_ok());
    assert!(validate_rtsp_url("RTSP://user:pw@10.0.0.2:554/stream1").is_ok());
    assert_eq!(
        recording_message(validate_rtsp_url("http://camera.local/live").unwrap_err()),
        "RTSP_URL scheme must be rtsp"
    );
    assert_eq!(
        recording_message(validate_rtsp_url("rtsp:/live").unwrap_err()),
        "RTSP_URL must include host"
    );
    match validate_rtsp_url("not a url") {
        Err(AppError::Uri(m)) => assert!(!m.is_empty()),
        other => panic!("unexpected {other:?}"),
    }
}

#[test]
fn recording_length_is_at_least_one_second() {
    assert_eq!(recording_seconds(0), 1);
    assert_eq!(recording_seconds(1), 1);
    assert_eq!(recording_seconds(3600), 3600);
}

#[test]
fn ffmpeg_arguments_for_x264_and_aac() {
    let args = ffmpeg_args("rtsp://c/l", 3600, "error", "libx264", "aac", "128k", "veryfast", 23);
    let expected: Vec<&str> = vec![
        "-hide_banner", "-loglevel", "error", "-rtsp_transport", "tcp", "-fflags",
        "+genpts+discardcorrupt", "-use_wallclock_as_timestamps", "1", "-i", "rtsp://c/l", "-t",
        "3600", "-map", "0:v:0", "-map", "0:a?", "-c:v", "libx264", "-c:a", "aac", "-preset",
        "veryfast", "-crf", "23", "-pix_fmt", "yuv420p", "-b:a", "128k", "-movflags",
        "+faststart", "-y",
    ];
    assert_eq!(args, expected);
}

#[test]
fn ffmpeg_arguments_for_stream_copy() {
    let args = ffmpeg_args("rtsp://c/l", 5, "info", "copy", "COPY", "64k", "slow", 30);
    let expected: Vec<&str> = vec![
        "-hide_banner", "-loglevel", "info", "-rtsp_transport", "tcp", "-fflags",
        "+genpts+discardcorrupt", "-use_wallclock_as_timestamps", "1", "-i", "rtsp://c/l", "-t",
        "5", "-map", "0:v:0", "-map", "0:a?", "-c:v", "copy", "-c:a", "COPY", "-movflags",
        "+faststart", "-y",
    ];
    assert_eq!(args, expected);
    let upper = ffmpeg_args("rtsp://c/l", 5, "info", "LibX264", "copy", "64k", "slow", 0);
    assert!(upper.iter().any(|a| a == "-pix_fmt"));
    assert!(!upper.iter().any(|a| a == "-b:a"));
}

#[test]
fn stderr_lines_follow_str_lines() {
    for text in ["", "a", "a\n", "a\r\nb", "a\n\nb\n", "x\ry\r", "\n", "\r\n\r\n"] {
        let ours: Vec<String> = text_lines(text).into_iter().map(|l| l.into_iter().collect()).collect();
        let std_lines: Vec<String> = text.lines().map(|l| l.to_string()).collect();
        assert_eq!(ours, std_lines, "{text:?}");
    }
}

#[test]
fn failure_reason_keeps_last_ten_lines() {
    assert_eq!(ffmpeg_failure_reason(""), "unknown ffmpeg error");
    assert_eq!(ffmpeg_failure_reason("one\ntwo\n"), "one | two");
    let text: String = (1..=12).map(|i| format!("l{i}\r\n")).collect();
    assert_eq!(
        ffmpeg_failure_reason(&text),
        "l3 | l4 | l5 | l6 | l7 | l8 | l9 | l10 | l11 | l12"
    );
}

#[test]
fn failure_errors_carry_status_and_reason() {
    let e = ffmpeg_failure("exit status: 1", b"bad input\nconnection refused\n");
    assert_eq!(
        recording_message(e),
        "ffmpeg failed with status exit status: 1: bad input | connection refused"
    );
    let e = ffmpeg_failure("exit status: 2", &[0xff, b'\n']);
    assert_eq!(recording_message(e), "ffmpeg failed with status exit status: 2: \u{fffd}");
    let e = ffmpeg_start_failure("No such file or directory");
    assert_eq!(recording_message(e), "failed to start ffmpeg: No such file or directory");
}
