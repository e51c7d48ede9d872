use chuncord::commands::{
    delete, download, resolve_output, Delete, DeleteAction, Download, DownloadAction, Event, OutputTarget,
};
use chuncord::discord::Response;
use chuncord::error::TransferError;

const INDEX: &str = "name = \"movie.mkv\"\nsize = 20\n\n[[parts]]\nsequence = 0\nremote_id = 11\nremote_locator = \"https://cdn.example/0\"\n\n[[parts]]\nsequence = 1\nremote_id = 12\nremote_locator = \"https://cdn.example/1\"\n\n[[parts]]\nsequence = 2\nremote_id = 13\nremote_locator = \"https://cdn.example/2\"\n";

fn ok(body: &str) -> Event {
    Event::Answer(Response { status: 200, remaining: Some("3".to_string()), reset_after: None, body: body.to_string() })
}

fn ok_but_out_of_quota(body: &str) -> Event {
    Event::Answer(Response {
        status: 200,
        remaining: Some("0".to_string()),
        reset_after: Some("0.05".to_string()),
        body: body.to_string(),
    })
}

fn refused(status: u16) -> Event {
    Event::Answer(Response { status, remaining: None, reset_after: None, body: String::new() })
}

#[test]
fn download_fetches_the_parts_in_the_order_of_their_numbers() {
    let mut state = Download::new("https://cdn.example/index".to_string());
    match state.action() {
        DownloadAction::FetchIndex { url } => assert_eq!(url, "https://cdn.example/index"),
        _ => panic!("the index is due"),
    }
    state = download(state, ok(INDEX));
    match state.action() {
        DownloadAction::CreateOutput { name, size } => {
            assert_eq!(name, "movie.mkv");
            assert_eq!(size, 20);
        }
        _ => panic!("the output is due"),
    }
    state = download(state, Event::Completed);
    let mut seen = Vec::new();
    loop {
        match state.action() {
            DownloadAction::FetchPart { url, sequence, total } => {
                assert_eq!(total, 3);
                seen.push((sequence, url));
                state = download(state, ok(""));
            }
            DownloadAction::Finish => break,
            _ => panic!("no other action is due"),
        }
    }
    assert_eq!(
        seen,
        vec![
            (0, "https://cdn.example/0".to_string()),
            (1, "https://cdn.example/1".to_string()),
            (2, "https://cdn.example/2".to_string()),
        ]
    );
    state = download(state, ok(""));
    assert!(matches!(state.action(), DownloadAction::Finish));
}

#[test]
fn download_rejects_a_corrupt_index() {
    let state = download(Download::new("u".to_string()), ok("name = \"x\"\nsize = 1\n"));
    assert!(matches!(state.action(), DownloadAction::Fail { error: TransferError::CorruptIndex, part: None }));
}

#[test]
fn download_stops_at_the_part_that_failed() {
    let mut state = download(Download::new("u".to_string()), ok(INDEX));
    state = download(state, Event::Completed);
    state = download(state, ok(""));
    state = download(state, refused(403));
    match state.action() {
        DownloadAction::Fail { error, part } => {
            assert_eq!(error, TransferError::RemoteRequestFailed { status: 403 });
            assert_eq!(part, Some(1));
        }
        _ => panic!("the download has failed"),
    }
    state = download(state, ok(""));
    assert!(matches!(state.action(), DownloadAction::Fail { .. }));
}

#[test]
fn download_fails_when_the_output_cannot_be_made() {
    let mut state = download(Download::new("u".to_string()), ok(INDEX));
    state = download(state, Event::LocalFailure);
    assert!(matches!(state.action(), DownloadAction::Fail { error: TransferError::LocalIo, part: None }));
}

#[test]
fn download_pauses_when_the_quota_is_used_up() {
    let mut state = download(Download::new("u".to_string()), ok_but_out_of_quota(INDEX));
    match state.action() {
        DownloadAction::Pause { reset_after } => assert_eq!(reset_after, "0.05"),
        _ => panic!("a pause is due"),
    }
    state = download(state, ok(""));
    assert!(matches!(state.action(), DownloadAction::Pause { .. }));
    state = download(state, Event::Completed);
    assert!(matches!(state.action(), DownloadAction::CreateOutput { .. }));
}

#[test]
fn output_goes_into_a_directory_under_the_stored_name() {
    match resolve_output(Some("/tmp/out"), true, "movie.mkv") {
        OutputTarget::InDirectory { directory, name } => {
            assert_eq!(directory, "/tmp/out");
            assert_eq!(name, "movie.mkv");
            assert_eq!(std::path::Path::new(&directory).join(&name), std::path::Path::new("/tmp/out/movie.mkv"));
        }
        _ => panic!("into the directory"),
    }
}

#[test]
fn output_goes_to_the_path_given_or_to_the_stored_name() {
    match resolve_output(Some("copy.bin"), false, "movie.mkv") {
        OutputTarget::Path { path } => assert_eq!(path, "copy.bin"),
        _ => panic!("to the path"),
    }
    match resolve_output(None, false, "movie.mkv") {
        OutputTarget::Named { name } => assert_eq!(name, "movie.mkv"),
        _ => panic!("under the stored name"),
    }
    match resolve_output(None, true, "movie.mkv") {
        OutputTarget::Named { name } => assert_eq!(name, "movie.mkv"),
        _ => panic!("under the stored name"),
    }
}

fn erase_ids(mut state: Delete, fail_at: Option<usize>) -> (Vec<u64>, Delete) {
    let mut ids = Vec::new();
    loop {
        match state.action() {
            DeleteAction::Lookup { mid } => {
                assert_eq!(mid, 99);
                state = delete(state, ok("{\"id\": \"99\", \"attachments\": [{\"url\": \"https://cdn.example/index\"}]}"));
            }
            DeleteAction::FetchIndex { url } => {
                assert_eq!(url, "https://cdn.example/index");
                state = delete(state, ok(INDEX));
            }
            DeleteAction::ErasePart { remote_id, sequence, total } => {
                assert_eq!(total, 3);
                assert_eq!(sequence as usize, ids.len());
                ids.push(remote_id);
                state = delete(state, if fail_at == Some(ids.len() - 1) { refused(500) } else { ok("") });
            }
            DeleteAction::EraseIndex { remote_id } => {
                ids.push(remote_id);
                state = delete(state, if fail_at == Some(ids.len() - 1) { refused(500) } else { ok_but_out_of_quota("") });
            }
            DeleteAction::Pause { .. } => state = delete(state, Event::Completed),
            DeleteAction::Finish | DeleteAction::Fail { .. } => return (ids, state),
        }
    }
}

#[test]
fn delete_erases_every_part_once_and_then_the_index() {
    let (ids, state) = erase_ids(Delete::new(99), None);
    assert_eq!(ids, vec![11, 12, 13, 99]);
    assert!(matches!(state.action(), DeleteAction::Finish));
    let state = delete(state, ok(""));
    assert!(matches!(state.action(), DeleteAction::Finish));
}

#[test]
fn delete_stops_at_the_first_failure() {
    let (ids, state) = erase_ids(Delete::new(99), Some(1));
    assert_eq!(ids, vec![11, 12]);
    match state.action() {
        DeleteAction::Fail { error, part } => {
            assert_eq!(error, TransferError::RemoteRequestFailed { status: 500 });
            assert_eq!(part, Some(1));
        }
        _ => panic!("the delete has failed"),
    }
    let state = delete(state, ok(""));
    assert!(matches!(state.action(), DeleteAction::Fail { .. }));
}

#[test]
fn delete_reports_a_failure_at_the_index_without_a_part() {
    let (ids, state) = erase_ids(Delete::new(99), Some(3));
    assert_eq!(ids, vec![11, 12, 13, 99]);
    assert!(matches!(
        state.action(),
        DeleteAction::Fail { error: TransferError::RemoteRequestFailed { status: 500 }, part: None }
    ));
}

#[test]
fn delete_fails_on_a_message_without_attachment() {
    let state = delete(Delete::new(5), ok("{\"id\": \"5\", \"attachments\": []}"));
    assert!(matches!(
        state.action(),
        DeleteAction::Fail { error: TransferError::MalformedRemoteResponse, part: None }
    ));
}

#[test]
fn delete_fails_on_a_corrupt_index() {
    let state = delete(Delete::new(5), ok("{\"id\": \"5\", \"attachments\": [{\"url\": \"u\"}]}"));
    let state = delete(state, ok("size = 3"));
    assert!(matches!(state.action(), DeleteAction::Fail { error: TransferError::CorruptIndex, part: None }));
}
