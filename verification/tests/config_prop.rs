use std::collections::HashMap;

use home_camera::config::AppConfig;
use home_camera::error::AppError;

fn base_env() -> HashMap<String, String> {
    HashMap::from([
        (
            "RTSP_URL".to_string(),
            "rtsp://camera.local/live".to_string(),
        ),
        (
            "RUSTFS_S3_ENDPOINT".to_string(),
            "http://rustfs-svc.rustfs.svc:9000".to_string(),
        ),
        ("RUSTFS_S3_REGION".to_string(), "us-east-1".to_string()),
        ("AWS_ACCESS_KEY_ID".to_string(), "test-access".to_string()),
        (
            "AWS_SECRET_ACCESS_KEY".to_string(),
            "test-secret".to_string(),
        ),
    ])
}

fn invalid_env(err: AppError) -> (&'static str, String) {
    match err {
        AppError::InvalidEnv { name, reason } => (name, reason),
        other => panic!("expected InvalidEnv, got {other:?}"),
    }
}

#[test]
fn positive_record_seconds_are_accepted() {
    for secs in [1u32, 2, 59, 60, 3599, 3600, 3601, 43_200, 86_399] {
        let mut vars = base_env();
        vars.insert("RECORD_SECONDS".to_string(), secs.to_string());
        let cfg = AppConfig::from_map(&vars).expect("config should parse");
        assert_eq!(cfg.record_seconds, secs as u64);
    }
}

#[test]
fn non_positive_record_seconds_are_rejected() {
    for secs in 0u32..=1u32 {
        let mut vars = base_env();
        vars.insert("RECORD_SECONDS".to_string(), secs.to_string());
        let parsed = AppConfig::from_map(&vars);
        if secs == 0 {
            assert!(parsed.is_err());
        } else {
            assert!(parsed.is_ok());
        }
    }
}

#[test]
fn ffmpeg_crf_in_range_is_accepted() {
    for crf in 0u8..=51u8 {
        let mut vars = base_env();
        vars.insert("FFMPEG_CRF".to_string(), crf.to_string());
        let cfg = AppConfig::from_map(&vars).expect("config should parse");
        assert_eq!(cfg.ffmpeg_crf, crf);
    }
}

#[test]
fn missing_required_fields_fail() {
    let required = [
        "RTSP_URL",
        "RUSTFS_S3_ENDPOINT",
        "RUSTFS_S3_REGION",
        "AWS_ACCESS_KEY_ID",
        "AWS_SECRET_ACCESS_KEY",
    ];

    for key in required {
        let mut vars = base_env();
        vars.remove(key);
        assert!(
            AppConfig::from_map(&vars).is_err(),
            "{key} should be required"
        );
    }
}

#[test]
fn ffmpeg_defaults_are_applied() {
    let vars = base_env();
    let cfg = AppConfig::from_map(&vars).expect("config should parse");
    assert_eq!(
        cfg.ffmpeg_video_codec,
        AppConfig::DEFAULT_FFMPEG_VIDEO_CODEC
    );
    assert_eq!(
        cfg.ffmpeg_audio_codec,
        AppConfig::DEFAULT_FFMPEG_AUDIO_CODEC
    );
    assert_eq!(
        cfg.ffmpeg_audio_bitrate,
        AppConfig::DEFAULT_FFMPEG_AUDIO_BITRATE
    );
    assert_eq!(cfg.ffmpeg_loglevel, AppConfig::DEFAULT_FFMPEG_LOGLEVEL);
    assert_eq!(cfg.ffmpeg_preset, AppConfig::DEFAULT_FFMPEG_PRESET);
    assert_eq!(cfg.ffmpeg_crf, AppConfig::DEFAULT_FFMPEG_CRF);
}

#[test]
fn ffmpeg_crf_above_max_is_rejected() {
    let mut vars = base_env();
    vars.insert("FFMPEG_CRF".to_string(), "52".to_string());
    assert!(AppConfig::from_map(&vars).is_err());
}

#[test]
fn empty_new_ffmpeg_settings_are_rejected() {
    for key in [
        "FFMPEG_VIDEO_CODEC",
        "FFMPEG_AUDIO_CODEC",
        "FFMPEG_AUDIO_BITRATE",
        "FFMPEG_LOGLEVEL",
    ] {
        let mut vars = base_env();
        vars.insert(key.to_string(), "   ".to_string());
        assert!(AppConfig::from_map(&vars).is_err(), "{key} should fail");
    }
}

#[test]
fn other_defaults_are_applied() {
    let cfg = AppConfig::from_map(&base_env()).expect("config should parse");
    assert_eq!(cfg.rtsp_url, "rtsp://camera.local/live");
    assert_eq!(cfg.s3_endpoint, "http://rustfs-svc.rustfs.svc:9000");
    assert_eq!(cfg.s3_region, "us-east-1");
    assert_eq!(cfg.aws_access_key_id, "test-access");
    assert_eq!(cfg.aws_secret_access_key, "test-secret");
    assert_eq!(cfg.s3_bucket, "home-camera-recordings");
    assert_eq!(cfg.camera_id, "camera");
    assert_eq!(cfg.record_seconds, 3600);
    assert_eq!(cfg.ffmpeg_preset, "veryfast");
    assert_eq!(cfg.ffmpeg_crf, 23);
}

#[test]
fn given_settings_override_defaults() {
    let mut vars = base_env();
    vars.insert("S3_BUCKET".to_string(), "bucket-2".to_string());
    vars.insert("CAMERA_ID".to_string(), "porch".to_string());
    vars.insert("RECORD_SECONDS".to_string(), "+600".to_string());
    vars.insert("FFMPEG_PRESET".to_string(), "slow".to_string());
    vars.insert("FFMPEG_LOGLEVEL".to_string(), "info".to_string());
    vars.insert("FFMPEG_VIDEO_CODEC".to_string(), "copy".to_string());
    vars.insert("FFMPEG_AUDIO_CODEC".to_string(), "copy".to_string());
    vars.insert("FFMPEG_AUDIO_BITRATE".to_string(), "96k".to_string());
    vars.insert("FFMPEG_CRF".to_string(), "0".to_string());
    let cfg = AppConfig::from_map(&vars).expect("config should parse");
    assert_eq!(cfg.s3_bucket, "bucket-2");
    assert_eq!(cfg.camera_id, "porch");
    assert_eq!(cfg.record_seconds, 600);
    assert_eq!(cfg.ffmpeg_preset, "slow");
    assert_eq!(cfg.ffmpeg_loglevel, "info");
    assert_eq!(cfg.ffmpeg_video_codec, "copy");
    assert_eq!(cfg.ffmpeg_audio_codec, "copy");
    assert_eq!(cfg.ffmpeg_audio_bitrate, "96k");
    assert_eq!(cfg.ffmpeg_crf, 0);
}

#[test]
fn missing_variable_is_named() {
    let mut vars = base_env();
    vars.remove("RUSTFS_S3_REGION");
    match AppConfig::from_map(&vars) {
        Err(AppError::MissingEnv(name)) => assert_eq!(name, "RUSTFS_S3_REGION"),
        other => panic!("unexpected {other:?}"),
    }
}

#[test]
fn first_missing_variable_in_order_is_reported() {
    let mut vars = base_env();
    vars.remove("AWS_SECRET_ACCESS_KEY");
    vars.remove("RUSTFS_S3_ENDPOINT");
    match AppConfig::from_map(&vars) {
        Err(AppError::MissingEnv(name)) => assert_eq!(name, "RUSTFS_S3_ENDPOINT"),
        other => panic!("unexpected {other:?}"),
    }
}

#[test]
fn rtsp_url_scheme_is_checked() {
    let mut vars = base_env();
    vars.insert("RTSP_URL".to_string(), "http://camera.local/live".to_string());
    let (name, reason) = invalid_env(AppConfig::from_map(&vars).unwrap_err());
    assert_eq!(name, "RTSP_URL");
    assert_eq!(reason, "must start with rtsp://");
}

#[test]
fn record_seconds_errors_are_reported() {
    let mut vars = base_env();
    vars.insert("RECORD_SECONDS".to_string(), "ten".to_string());
    let (name, reason) = invalid_env(AppConfig::from_map(&vars).unwrap_err());
    assert_eq!((name, reason.as_str()), ("RECORD_SECONDS", "must be an integer"));

    vars.insert("RECORD_SECONDS".to_string(), "0".to_string());
    let (name, reason) = invalid_env(AppConfig::from_map(&vars).unwrap_err());
    assert_eq!((name, reason.as_str()), ("RECORD_SECONDS", "must be > 0"));

    vars.insert("RECORD_SECONDS".to_string(), " 10".to_string());
    assert!(AppConfig::from_map(&vars).is_err());

    vars.insert("RECORD_SECONDS".to_string(), "-5".to_string());
    assert!(AppConfig::from_map(&vars).is_err());

    vars.insert("RECORD_SECONDS".to_string(), "18446744073709551616".to_string());
    assert!(AppConfig::from_map(&vars).is_err());

    vars.insert("RECORD_SECONDS".to_string(), "18446744073709551615".to_string());
    assert_eq!(AppConfig::from_map(&vars).unwrap().record_seconds, u64::MAX);
}

#[test]
fn crf_errors_are_reported() {
    let mut vars = base_env();
    vars.insert("FFMPEG_CRF".to_string(), "256".to_string());
    let (name, reason) = invalid_env(AppConfig::from_map(&vars).unwrap_err());
    assert_eq!((name, reason.as_str()), ("FFMPEG_CRF", "must be an integer"));

    vars.insert("FFMPEG_CRF".to_string(), "52".to_string());
    let (name, reason) = invalid_env(AppConfig::from_map(&vars).unwrap_err());
    assert_eq!((name, reason.as_str()), ("FFMPEG_CRF", "must be <= 51"));
}

#[test]
fn blank_preset_is_rejected() {
    let mut vars = base_env();
    vars.insert("FFMPEG_PRESET".to_string(), "\t \n".to_string());
    let (name, reason) = invalid_env(AppConfig::from_map(&vars).unwrap_err());
    assert_eq!((name, reason.as_str()), ("FFMPEG_PRESET", "must not be empty"));

    vars.insert("FFMPEG_PRESET".to_string(), "\u{3000}".to_string());
    assert!(AppConfig::from_map(&vars).is_err());
}

#[test]
fn settings_with_surrounding_spaces_are_kept_as_given() {
    let mut vars = base_env();
    vars.insert("FFMPEG_PRESET".to_string(), " fast ".to_string());
    let cfg = AppConfig::from_map(&vars).unwrap();
    assert_eq!(cfg.ffmpeg_preset, " fast ");
}
