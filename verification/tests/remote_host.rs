use chuncord::discord::{cool_ratelimit, delete, fetch, lookup, upload, DiscordMessage, Request, Response};
use chuncord::error::TransferError;
use chuncord::multipart::{multipart, multipart_with};

fn response(status: u16, remaining: Option<&str>, reset_after: Option<&str>) -> Response {
    Response {
        status,
        remaining: remaining.map(|s| s.to_string()),
        reset_after: reset_after.map(|s| s.to_string()),
        body: String::new(),
    }
}

#[test]
fn multipart_frames_with_the_given_boundary() {
    let framing = multipart_with(42, "chuncord_0");
    assert_eq!(framing.content_type, "multipart/form-data; boundary=42");
    assert_eq!(
        framing.head,
        b"--42\r\nContent-Disposition: form-data; name=\"file\"; filename=\"chuncord_0\"\r\nContent-Type: application/octet-stream\r\n\r\n".to_vec()
    );
    assert_eq!(framing.tail, b"\r\n--42--\r\n".to_vec());
}

#[test]
fn multipart_keeps_names_that_are_not_ascii() {
    let framing = multipart_with(7, "h\u{e9}");
    let head = String::from_utf8(framing.head).unwrap();
    assert!(head.contains("filename=\"h\u{e9}\""));
}

#[test]
fn multipart_draws_one_boundary_for_all_three_texts() {
    let framing = multipart("chuncord_index.toml");
    let boundary = framing.content_type.strip_prefix("multipart/form-data; boundary=").unwrap().to_string();
    let number: u64 = boundary.parse().unwrap();
    let same = multipart_with(number, "chuncord_index.toml");
    assert_eq!(framing.head, same.head);
    assert_eq!(framing.tail, same.tail);
    assert_eq!(framing.content_type, same.content_type);
}

#[test]
fn message_reads_a_stringified_identifier() {
    let message = DiscordMessage::parse(
        "{\"id\": \"1234567890123456789\", \"type\": 0, \"attachments\": [{\"id\": \"5\", \"url\": \"https://cdn.example/x\", \"size\": 3}]}",
    )
    .unwrap();
    assert_eq!(message.id, 1234567890123456789);
    assert_eq!(message.attachment.url, "https://cdn.example/x");
}

#[test]
fn message_reads_a_numeric_identifier() {
    let message = DiscordMessage::parse("{\"id\": 18446744073709551615, \"attachments\": [{\"url\": \"u\"}]}").unwrap();
    assert_eq!(message.id, u64::MAX);
}

#[test]
fn message_needs_exactly_one_attachment_with_an_address() {
    let bad = [
        "{\"id\": \"1\", \"attachments\": []}",
        "{\"id\": \"1\", \"attachments\": [{\"url\": \"u\"}, {\"url\": \"v\"}]}",
        "{\"id\": \"1\", \"attachments\": [{\"size\": 3}]}",
        "{\"id\": \"1\", \"attachments\": [{\"url\": 5}]}",
        "{\"id\": \"1\", \"attachments\": {\"url\": \"u\"}}",
        "{\"id\": \"1\"}",
        "{\"attachments\": [{\"url\": \"u\"}]}",
        "{\"id\": \"x1\", \"attachments\": [{\"url\": \"u\"}]}",
        "{\"id\": -1, \"attachments\": [{\"url\": \"u\"}]}",
        "{\"id\": 1.5, \"attachments\": [{\"url\": \"u\"}]}",
        "{\"id\": null, \"attachments\": [{\"url\": \"u\"}]}",
        "[1, 2]",
        "{\"id\": \"1\", \"attachments\": [{\"url\": \"u\"}]",
        "",
    ];
    for body in bad {
        assert!(matches!(DiscordMessage::parse(body), Err(TransferError::MalformedRemoteResponse)), "{}", body);
    }
}

#[test]
fn quota_left_lets_the_next_request_go() {
    assert_eq!(cool_ratelimit(&response(200, Some("4"), None)), Ok(None));
    assert_eq!(cool_ratelimit(&response(200, Some("1"), Some("9.5"))), Ok(None));
}

#[test]
fn quota_used_up_asks_for_the_wait() {
    assert_eq!(cool_ratelimit(&response(200, Some("0"), Some("0.05"))), Ok(Some("0.05".to_string())));
}

#[test]
fn quota_headers_are_mandatory() {
    assert_eq!(cool_ratelimit(&response(200, None, Some("1"))), Err(TransferError::MissingRateLimitHeaders));
    assert_eq!(cool_ratelimit(&response(200, Some("0"), None)), Err(TransferError::MissingRateLimitHeaders));
    assert_eq!(cool_ratelimit(&response(200, Some("many"), Some("1"))), Err(TransferError::MissingRateLimitHeaders));
}

#[test]
fn status_is_judged_before_the_quota() {
    assert_eq!(response(404, None, None).settle(), Err(TransferError::RemoteRequestFailed { status: 404 }));
    assert_eq!(response(199, Some("1"), None).settle(), Err(TransferError::RemoteRequestFailed { status: 199 }));
    assert_eq!(response(300, Some("1"), None).settle(), Err(TransferError::RemoteRequestFailed { status: 300 }));
    assert_eq!(response(299, Some("1"), None).settle(), Ok(None));
    assert_eq!(response(204, Some("0"), Some("2")).settle(), Ok(Some("2".to_string())));
    assert_eq!(response(200, None, None).settle(), Err(TransferError::MissingRateLimitHeaders));
}

#[test]
fn requests_go_to_the_right_addresses() {
    match delete(77, "https://host.example/api/webhooks/1/t") {
        Request::Delete { url } => assert_eq!(url, "https://host.example/api/webhooks/1/t/messages/77"),
        _ => panic!("an erase request"),
    }
    match lookup(u64::MAX, "w") {
        Request::Get { url } => assert_eq!(url, "w/messages/18446744073709551615"),
        _ => panic!("a fetch request"),
    }
    match fetch("https://cdn.example/x") {
        Request::Get { url } => assert_eq!(url, "https://cdn.example/x"),
        _ => panic!("a fetch request"),
    }
    match upload("chuncord_3", "https://host.example/hook") {
        Request::Post { url, framing } => {
            assert_eq!(url, "https://host.example/hook");
            assert!(framing.content_type.starts_with("multipart/form-data; boundary="));
            assert!(String::from_utf8(framing.head).unwrap().contains("filename=\"chuncord_3\""));
        }
        _ => panic!("a store request"),
    }
}

#[test]
fn errors_describe_themselves() {
    assert_eq!(
        TransferError::RemoteRequestFailed { status: 429 }.message(),
        "remote request failed with status 429"
    );
    assert!(!TransferError::CorruptIndex.message().is_empty());
}
