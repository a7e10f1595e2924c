use home_camera::key::{
    build_object_key, jst_offset, object_key_from_path, recording_targets, sanitize_camera_id,
    temp_mp4_path, temp_mp4_path_string, try_build_object_key, HOUR_PATH_FORMAT,
    JST_OFFSET_HOURS,
};
use time::{format_description, OffsetDateTime, UtcOffset};

fn sample_cameras() -> Vec<&'static str> {
    vec!["cam-1", "front door", "a/b/c", " x_y ", "-", "___", "ZZ9", "/ /"]
}

#[test]
fn object_key_has_expected_shape() {
    let mut ts: i64 = -2_000_000_000;
    while ts < 4_000_000_000 {
        let dt = OffsetDateTime::from_unix_timestamp(ts).unwrap();
        for camera in sample_cameras() {
            let key = build_object_key(camera, dt);
            assert!(key.ends_with(".mp4"));
            assert_eq!(key.matches('/').count(), 4);
        }
        ts += 86_399_937;
    }
}

#[test]
fn object_key_path_matches_time_formatting() {
    let fmt = format_description::parse("[year]/[month]/[day]/[hour]").unwrap();
    let jst = UtcOffset::from_hms(9, 0, 0).unwrap();
    let mut ts: i64 = -62_000_000_000;
    while ts < 250_000_000_000 {
        let dt = OffsetDateTime::from_unix_timestamp(ts).unwrap().to_offset(jst);
        let expected = format!("cam/{}.mp4", dt.format(&fmt).unwrap());
        assert_eq!(build_object_key("cam", dt), expected);
        ts += 3_333_333_337;
    }
}

#[test]
fn object_key_example() {
    let dt = OffsetDateTime::from_unix_timestamp(1_700_000_000).unwrap();
    assert_eq!(build_object_key("Front Door", dt), "Front_Door/2023/11/14/22.mp4");
    let jst = UtcOffset::from_hms(9, 0, 0).unwrap();
    assert_eq!(build_object_key("  ", dt.to_offset(jst)), "camera/2023/11/15/07.mp4");
}

#[test]
fn object_key_from_path_examples() {
    assert_eq!(object_key_from_path("cam", "0007/01/02/03"), "cam/0007/01/02/03.mp4");
    assert_eq!(object_key_from_path(" a/b ", "x"), "a_b/x.mp4");
    assert_eq!(object_key_from_path("", ""), "camera/.mp4");
}

#[test]
fn try_build_object_key_formats_the_hour() {
    let dt = OffsetDateTime::from_unix_timestamp(1_700_000_000).unwrap();
    assert_eq!(try_build_object_key("cam", dt).as_deref(), Some("cam/2023/11/14/22.mp4"));
    assert_eq!(HOUR_PATH_FORMAT, "[year]/[month]/[day]/[hour]");
}

#[test]
fn camera_id_is_s3_key_safe() {
    let inputs = [
        "", " ", "\t\n", "camera", "a/b", "Front Door", "日本語", "x.y", "-_-", "/", "\u{3000}id\u{3000}",
        "emoji🎥", "0123456789abcdefghijklmnopqrstuv",
    ];
    for input in inputs {
        let out = sanitize_camera_id(input);
        assert!(!out.is_empty());
        assert!(!out.contains('/'));
        assert!(out
            .chars()
            .all(|c| c.is_ascii_alphanumeric() || c == '-' || c == '_'));
    }
}

#[test]
fn sanitize_examples() {
    assert_eq!(sanitize_camera_id(""), "camera");
    assert_eq!(sanitize_camera_id("   "), "camera");
    assert_eq!(sanitize_camera_id("  porch cam  "), "porch_cam");
    assert_eq!(sanitize_camera_id("a/b.c"), "a_b_c");
    assert_eq!(sanitize_camera_id("日本"), "__");
    assert_eq!(sanitize_camera_id("\u{3000}x\u{3000}"), "x");
}

#[test]
fn sanitize_is_idempotent() {
    for input in ["", " a b ", "x/y", "ok-id_1", "日本"] {
        let once = sanitize_camera_id(input);
        assert_eq!(sanitize_camera_id(&once), once);
    }
}

#[test]
fn temp_path_examples() {
    assert_eq!(temp_mp4_path_string("cam 1", 1_700_000_000), "/tmp/cam_1-1700000000.mp4");
    assert_eq!(temp_mp4_path_string(" a ", -5), "/tmp/_a_--5.mp4");
    assert_eq!(temp_mp4_path_string("", i64::MIN), "/tmp/--9223372036854775808.mp4");
    assert_eq!(
        temp_mp4_path("x/y", 0).to_str().unwrap(),
        "/tmp/x_y-0.mp4"
    );
}

#[test]
fn recording_targets_name_the_jst_hour() {
    let now = OffsetDateTime::from_unix_timestamp(1_700_000_000).unwrap();
    let (key, path) = recording_targets("front door", now).unwrap();
    assert_eq!(key, "front_door/2023/11/15/07.mp4");
    assert_eq!(path.to_str().unwrap(), "/tmp/front_door-1700000000.mp4");
}

#[test]
fn jst_is_nine_hours_ahead() {
    assert_eq!(JST_OFFSET_HOURS, 9);
    assert_eq!(jst_offset(), UtcOffset::from_hms(9, 0, 0).unwrap());
    assert_eq!(jst_offset().whole_seconds(), 9 * 3600);
}
