use home_camera::error::AppError;
use home_camera::storage::{s3_request_url, upload_id_of, MultipartProgress, MULTIPART_PART_SIZE};

#[test]
fn parts_are_numbered_from_one() {
    let mut progress = MultipartProgress::new();
    assert_eq!(progress.next_part_number(), 1);
    progress.record_part(Some("\"etag-1\"".to_string()));
    assert_eq!(progress.next_part_number(), 2);
    progress.record_part(None);
    let parts = progress.finish().ok().unwrap();
    assert_eq!(parts.len(), 2);
    assert_eq!(parts[0].part_number, 1);
    assert_eq!(parts[0].e_tag.as_deref(), Some("\"etag-1\""));
    assert_eq!(parts[1].part_number, 2);
    assert_eq!(parts[1].e_tag, None);
}

#[test]
fn upload_without_parts_is_an_error() {
    match MultipartProgress::new().finish() {
        Err(AppError::S3Upload(m)) => assert_eq!(m, "multipart upload produced no parts"),
        _ => panic!("expected an error"),
    }
}

#[test]
fn missing_upload_id_is_an_error() {
    assert_eq!(upload_id_of(Some("abc".to_string())).ok().unwrap(), "abc");
    match upload_id_of(None) {
        Err(AppError::S3Upload(m)) => assert_eq!(m, "missing upload_id in multipart response"),
        _ => panic!("expected an error"),
    }
}

#[test]
fn request_urls() {
    assert_eq!(
        s3_request_url(false, "rustfs-svc.rustfs.svc", 9000, "/bucket/key?uploads"),
        "http://rustfs-svc.rustfs.svc:9000/bucket/key?uploads"
    );
    assert_eq!(s3_request_url(true, "s3.example.com", 443, "/"), "https://s3.example.com:443/");
}

#[test]
fn part_size_is_eight_mebibytes() {
    assert_eq!(MULTIPART_PART_SIZE, 8 * 1024 * 1024);
}

fn s3_config(region: &str) -> home_camera::config::AppConfig {
    home_camera::config::AppConfig {
        rtsp_url: "rtsp://camera.local/live".to_string(),
        s3_endpoint: "http://rustfs-svc.rustfs.svc:9000".to_string(),
        s3_region: region.to_string(),
        aws_access_key_id: "test-access".to_string(),
        aws_secret_access_key: "test-secret".to_string(),
        s3_bucket: "recordings".to_string(),
        camera_id: "camera".to_string(),
        record_seconds: 3600,
        ffmpeg_loglevel: "error".to_string(),
        ffmpeg_video_codec: "libx264".to_string(),
        ffmpeg_audio_codec: "aac".to_string(),
        ffmpeg_audio_bitrate: "128k".to_string(),
        ffmpeg_preset: "veryfast".to_string(),
        ffmpeg_crf: 23,
    }
}

fn response(status_code: u16, headers: &[(&str, &str)], body: &str) -> shiguredo_s3::S3Response {
    shiguredo_s3::S3Response {
        status_code,
        headers: headers.iter().map(|(k, v)| (k.to_string(), v.to_string())).collect(),
        body: body.as_bytes().to_vec(),
    }
}

fn now() -> std::time::SystemTime {
    std::time::UNIX_EPOCH + std::time::Duration::from_secs(1_700_000_000)
}

const CREATED: &str = "<InitiateMultipartUploadResult><Bucket>recordings</Bucket><Key>cam/2023/11/14/22.mp4</Key><UploadId>upload-1</UploadId></InitiateMultipartUploadResult>";

#[test]
fn empty_region_is_refused() {
    match home_camera::storage::MultipartUpload::new(&s3_config(""), "k") {
        Err(AppError::S3Upload(m)) => assert_eq!(m, "invalid input: region must not be empty"),
        _ => panic!("expected an error"),
    }
}

#[test]
fn multipart_upload_runs_its_steps_in_order() {
    let mut upload =
        home_camera::storage::MultipartUpload::new(&s3_config("us-east-1"), "cam/2023/11/14/22.mp4")
            .ok()
            .unwrap();
    assert!(!upload.has_upload_id());

    let create = upload.create_request(now()).ok().unwrap();
    assert_eq!(create.method, "POST");
    assert_eq!(create.host, "rustfs-svc.rustfs.svc");
    assert_eq!(create.port, 9000);
    assert!(create.uri.starts_with("/recordings/cam/2023/11/14/22.mp4"));
    assert!(create.uri.contains("uploads"));
    assert!(create
        .headers
        .iter()
        .any(|(k, v)| k.eq_ignore_ascii_case("content-type") && v == "video/mp4"));

    upload.take_create_response(&response(200, &[], CREATED)).ok().unwrap();
    assert!(upload.has_upload_id());

    match upload.complete_request(now()) {
        Err(AppError::S3Upload(m)) => assert_eq!(m, "multipart upload produced no parts"),
        _ => panic!("expected an error"),
    }

    let part = upload.part_request(vec![1, 2, 3], now()).ok().unwrap();
    assert_eq!(part.method, "PUT");
    assert!(part.uri.contains("partNumber=1"));
    assert!(part.uri.contains("uploadId=upload-1"));
    assert_eq!(part.body, vec![1, 2, 3]);
    upload.take_part_response(&response(200, &[("ETag", "\"e1\"")], "")).ok().unwrap();
    assert_eq!(upload.part_count(), 1);

    let part2 = upload.part_request(vec![4], now()).ok().unwrap();
    assert!(part2.uri.contains("partNumber=2"));
    upload.take_part_response(&response(200, &[("ETag", "\"e2\"")], "")).ok().unwrap();
    assert_eq!(upload.part_count(), 2);

    let complete = upload.complete_request(now()).ok().unwrap();
    assert_eq!(complete.method, "POST");
    assert!(complete.uri.contains("uploadId=upload-1"));
    let body = String::from_utf8(complete.body.clone()).unwrap();
    assert!(body.contains("<PartNumber>1</PartNumber>"));
    assert!(body.contains("<PartNumber>2</PartNumber>"));
    assert!(body.contains("e1"));

    let done = "<CompleteMultipartUploadResult><Bucket>recordings</Bucket><Key>k</Key><ETag>x</ETag></CompleteMultipartUploadResult>";
    assert!(upload.take_complete_response(&response(200, &[], done)).is_ok());
    assert!(upload.take_complete_response(&response(500, &[], "")).is_err());
}

#[test]
fn unreadable_answers_are_errors() {
    let mut upload = home_camera::storage::MultipartUpload::new(&s3_config("us-east-1"), "k")
        .ok()
        .unwrap();
    match upload.take_create_response(&response(200, &[], "<InitiateMultipartUploadResult></InitiateMultipartUploadResult>")) {
        Err(AppError::S3Upload(m)) => assert_eq!(m, "missing upload_id in multipart response"),
        _ => panic!("expected an error"),
    }
    assert!(!upload.has_upload_id());
    assert!(matches!(
        upload.take_create_response(&response(403, &[], "")),
        Err(AppError::S3Upload(_))
    ));
    assert!(!upload.has_upload_id());
    upload.take_create_response(&response(200, &[], CREATED)).ok().unwrap();
    assert!(matches!(
        upload.take_part_response(&response(500, &[], "")),
        Err(AppError::S3Upload(_))
    ));
    assert_eq!(upload.part_count(), 0);
}
