use home_camera::slack_client::{
    message_payload, normalize_base_url, slack_message_url, DEFAULT_SLACK_BASE_URL,
};

#[test]
fn normalize_base_url_trims_trailing_slashes() {
    assert_eq!(
        normalize_base_url("http://slack:3000/"),
        "http://slack:3000"
    );
}

#[test]
fn pbt_normalize_base_url_is_idempotent() {
    for host in ["abc", "slack", "relayhostx"] {
        for count in 0usize..5 {
            let suffix = "/".repeat(count);
            let input = format!("http://{host}:3000{suffix}");
            let once = normalize_base_url(&input).to_string();
            let twice = normalize_base_url(&once).to_string();
            assert_eq!(once, twice);
            assert_eq!(once, format!("http://{host}:3000"));
        }
    }
}

#[test]
fn normalize_keeps_inner_slashes() {
    assert_eq!(normalize_base_url("http://h/a/b//"), "http://h/a/b");
    assert_eq!(normalize_base_url("///"), "");
    assert_eq!(normalize_base_url(""), "");
}

#[test]
fn message_url_is_built_from_base() {
    assert_eq!(slack_message_url(DEFAULT_SLACK_BASE_URL), "http://slack:3000/slack/message");
    assert_eq!(slack_message_url("http://relay:8080///"), "http://relay:8080/slack/message");
}

#[test]
fn message_payload_has_channel_and_text() {
    let payload = message_payload("log", "camera \"start\"");
    assert_eq!(payload["channel"], "log");
    assert_eq!(payload["text"], "camera \"start\"");
    assert_eq!(payload.as_object().unwrap().len(), 2);
    assert_eq!(
        serde_json::to_string(&payload).unwrap(),
        "{\"channel\":\"log\",\"text\":\"camera \\\"start\\\"\"}"
    );
}
