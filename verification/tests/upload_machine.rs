use chuncord::commands::{upload, Event, Upload, UploadAction};
use chuncord::discord::Response;
use chuncord::error::TransferError;
use chuncord::index::Index;

fn answer(id: u64, url: &str, remaining: &str) -> Event {
    Event::Answer(Response {
        status: 200,
        remaining: Some(remaining.to_string()),
        reset_after: Some("0.05".to_string()),
        body: format!("{{\"id\": \"{}\", \"attachments\": [{{\"url\": \"{}\", \"size\": 3}}]}}", id, url),
    })
}

#[test]
fn three_bytes_with_bound_eight_make_one_part() {
    let state = Upload::new("abc.txt".to_string(), 3, 8);
    match state.action() {
        UploadAction::StoreChunk { filename, offset, length } => {
            assert_eq!(filename, "chuncord_0");
            assert_eq!(offset, 0);
            assert_eq!(length, 3);
        }
        _ => panic!("the first chunk is due"),
    }
    let state = upload(state, answer(41, "https://cdn.example/0", "4"));
    let body = match state.action() {
        UploadAction::StoreIndex { filename, body } => {
            assert_eq!(filename, "chuncord_index.toml");
            body
        }
        _ => panic!("the index is due"),
    };
    let index = Index::deserialize(&body).unwrap();
    assert_eq!(index.parts.len(), 1);
    assert_eq!(index.size, 3);
    assert_eq!(index.name, "abc.txt");
    assert_eq!(index.parts[0].sequence, 0);
    assert_eq!(index.parts[0].remote_id, 41);
    assert_eq!(index.parts[0].remote_locator, "https://cdn.example/0");
    let state = upload(state, answer(42, "https://cdn.example/index", "4"));
    match state.action() {
        UploadAction::Finish { url, mid } => {
            assert_eq!(url, "https://cdn.example/index");
            assert_eq!(mid, 42);
        }
        _ => panic!("the upload is finished"),
    }
}

#[test]
fn twice_the_bound_makes_two_parts_and_no_third() {
    let mut state = Upload::new("f".to_string(), 16, 8);
    let mut windows = Vec::new();
    loop {
        match state.action() {
            UploadAction::StoreChunk { offset, length, .. } => {
                windows.push((offset, length));
                state = upload(state, answer(windows.len() as u64, "u", "1"));
            }
            UploadAction::StoreIndex { body, .. } => {
                assert_eq!(Index::deserialize(&body).unwrap().parts.len(), 2);
                break;
            }
            _ => panic!("no other action is due"),
        }
    }
    assert_eq!(windows, vec![(0, 8), (8, 8)]);
}

#[test]
fn empty_file_makes_one_empty_part() {
    let state = Upload::new("empty".to_string(), 0, 8);
    assert_eq!(state.progress(), (0, 0, 0, 1));
    match state.action() {
        UploadAction::StoreChunk { offset, length, .. } => assert_eq!((offset, length), (0, 0)),
        _ => panic!("one chunk is due"),
    }
    let state = upload(state, answer(1, "u", "1"));
    assert!(matches!(state.action(), UploadAction::StoreIndex { .. }));
}

#[test]
fn zero_quota_pauses_before_the_next_request() {
    let state = Upload::new("f".to_string(), 20, 8);
    let state = upload(state, answer(1, "u", "0"));
    match state.action() {
        UploadAction::Pause { reset_after } => assert_eq!(reset_after, "0.05"),
        _ => panic!("a pause is due"),
    }
    let state = upload(state, Event::LocalFailure);
    assert!(matches!(state.action(), UploadAction::Pause { .. }));
    let state = upload(state, Event::Completed);
    match state.action() {
        UploadAction::StoreChunk { filename, offset, length } => {
            assert_eq!(filename, "chuncord_1");
            assert_eq!((offset, length), (8, 8));
        }
        _ => panic!("the second chunk is due"),
    }
}

#[test]
fn upload_fails_on_a_bad_status_and_stays_failed() {
    let state = Upload::new("f".to_string(), 20, 8);
    let state = upload(state, answer(1, "u", "3"));
    let state = upload(
        state,
        Event::Answer(Response { status: 500, remaining: None, reset_after: None, body: String::new() }),
    );
    match state.action() {
        UploadAction::Fail { error, part } => {
            assert_eq!(error, TransferError::RemoteRequestFailed { status: 500 });
            assert_eq!(part, Some(1));
        }
        _ => panic!("the upload has failed"),
    }
    let state = upload(state, answer(2, "u", "3"));
    assert!(matches!(state.action(), UploadAction::Fail { .. }));
}

#[test]
fn upload_fails_without_quota_headers() {
    let state = Upload::new("f".to_string(), 2, 8);
    let state = upload(
        state,
        Event::Answer(Response {
            status: 200,
            remaining: None,
            reset_after: None,
            body: "{\"id\": \"1\", \"attachments\": [{\"url\": \"u\"}]}".to_string(),
        }),
    );
    match state.action() {
        UploadAction::Fail { error, part } => {
            assert_eq!(error, TransferError::MissingRateLimitHeaders);
            assert_eq!(part, Some(0));
        }
        _ => panic!("the upload has failed"),
    }
}

#[test]
fn upload_fails_on_two_attachments() {
    let state = Upload::new("f".to_string(), 2, 8);
    let state = upload(
        state,
        Event::Answer(Response {
            status: 200,
            remaining: Some("5".to_string()),
            reset_after: None,
            body: "{\"id\": \"1\", \"attachments\": [{\"url\": \"u\"}, {\"url\": \"v\"}]}".to_string(),
        }),
    );
    assert!(matches!(
        state.action(),
        UploadAction::Fail { error: TransferError::MalformedRemoteResponse, part: Some(0) }
    ));
}
