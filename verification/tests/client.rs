use cursor::client::{CppFate, CursorClient};
use cursor::envelope::{frame, open_payload, split_frame};
use cursor::error::{Call, CursorError};
use cursor::http::{answer_body, connect_request, status_is_success, HttpAnswer, HttpRequest};
use cursor::stream::StreamCppResponse;

fn header<'a>(request: &'a HttpRequest, name: &str) -> Option<&'a str> {
    request.headers.iter().find(|(n, _)| n == name).map(|(_, value)| value.as_str())
}

fn message_in(request: &HttpRequest) -> Vec<u8> {
    let (flags, payload, rest) = split_frame(&request.body).unwrap();
    assert_eq!(flags, 0x01);
    assert!(rest.is_empty());
    open_payload(flags, payload).unwrap()
}

fn failure() -> HttpAnswer {
    HttpAnswer::Failure { status: "401 Unauthorized".to_string(), text: "no token".to_string() }
}

fn success(body: &[u8]) -> HttpAnswer {
    HttpAnswer::Success { body: body.to_vec() }
}

fn reply(bytes: &[u8]) -> Option<StreamCppResponse> {
    let text = String::from_utf8(bytes.to_vec()).ok()?;
    Some(StreamCppResponse { text, done_stream: None, binding_id: None, range_to_replace: None })
}

fn results(bytes: &[u8]) -> Option<Vec<u8>> {
    if bytes == b"broken" {
        None
    } else {
        Some(bytes.to_vec())
    }
}

#[test]
fn headers_stand_in_order() {
    let request = connect_request(
        Call::StreamCpp,
        &Some("secret".to_string()),
        "session",
        "request",
        "config",
        "+01:00",
        "key",
        "fs key",
        vec![1, 0, 0, 0, 2, 9, 9],
    );
    assert_eq!(request.method, "POST");
    assert_eq!(request.uri, "https://api2.cursor.sh/aiserver.v1.AiService/StreamCpp");
    assert_eq!(request.body, vec![1, 0, 0, 0, 2, 9, 9]);
    let expected = [
        ("Content-Type", "application/connect+proto"),
        ("Connect-Protocol-Version", "1"),
        ("Connect-Accept-Encoding", "gzip"),
        ("Connect-Content-Encoding", "gzip"),
        ("User-Agent", "connect-es/1.6.1"),
        ("X-Cursor-Client-Type", "ide"),
        ("X-Cursor-Client-Version", "2.1.17"),
        ("X-Cursor-Streaming", "true"),
        ("X-Ghost-Mode", "true"),
        ("X-Session-Id", "session"),
        ("X-Request-Id", "request"),
        ("X-Cursor-Config-Version", "config"),
        ("X-Cursor-Timezone", "+01:00"),
        ("X-Client-Key", "key"),
        ("X-Fs-Client-Key", "fs key"),
        (
            "X-Cursor-Checksum",
            "TPn75BGq33096479da119e66370991196e9a1a67f7fd5dc9ceb0872c94bcf4dac66fb288",
        ),
        ("Authorization", "Bearer secret"),
    ];
    assert_eq!(request.headers.len(), expected.len());
    for (i, (name, value)) in expected.iter().enumerate() {
        assert_eq!(request.headers[i].0, *name);
        assert_eq!(request.headers[i].1, *value);
    }
}

#[test]
fn no_token_no_authorization() {
    let request =
        connect_request(Call::FsSyncFile, &None, "s", "r", "c", "+00:00", "k", "f", vec![]);
    assert_eq!(request.headers.len(), 16);
    assert_eq!(header(&request, "Authorization"), None);
}

#[test]
fn header_names_are_different() {
    let request = connect_request(
        Call::StreamCpp,
        &Some(String::new()),
        "s",
        "r",
        "c",
        "+00:00",
        "k",
        "f",
        vec![],
    );
    for (i, one) in request.headers.iter().enumerate() {
        for two in &request.headers[i + 1..] {
            assert_ne!(one.0.to_lowercase(), two.0.to_lowercase());
        }
    }
}

#[test]
fn calls_have_their_endpoints() {
    let base = "https://api2.cursor.sh/aiserver.v1.AiService/";
    assert_eq!(Call::StreamCpp.endpoint(), format!("{}StreamCpp", base));
    assert_eq!(Call::RecordCppFate.endpoint(), format!("{}RecordCppFate", base));
    assert_eq!(Call::RefreshTabContext.endpoint(), format!("{}RefreshTabContext", base));
    assert_eq!(Call::FsSyncFile.endpoint(), format!("{}FSSyncFile", base));
}

#[test]
fn completion_request_carries_the_message() {
    let request = CursorClient::get_completion_request(
        Some("secret".to_string()),
        "session".to_string(),
        "key".to_string(),
        "fs key".to_string(),
        "request".to_string(),
        b"message",
    )
    .unwrap();
    assert_eq!(request.uri, Call::StreamCpp.endpoint());
    assert_eq!(message_in(&request), b"message");
    assert_eq!(header(&request, "X-Session-Id"), Some("session"));
    assert_eq!(header(&request, "X-Request-Id"), Some("request"));
    assert_eq!(header(&request, "X-Client-Key"), Some("key"));
    assert_eq!(header(&request, "X-Fs-Client-Key"), Some("fs key"));
    assert_eq!(header(&request, "Authorization"), Some("Bearer secret"));
    assert_eq!(header(&request, "X-Cursor-Config-Version").unwrap().len(), 36);
    let checksum = CursorClient::compute_checksum(&request.body);
    assert_eq!(header(&request, "X-Cursor-Checksum"), Some(checksum.as_str()));
}

#[test]
fn other_requests_go_out_under_ids_of_their_own() {
    let identity = || (None, "s".to_string(), "k".to_string(), "f".to_string());
    let (token, session, key, fs_key) = identity();
    let fate = CursorClient::record_cpp_fate_request(token, session, key, fs_key, b"fate").unwrap();
    let (token, session, key, fs_key) = identity();
    let context =
        CursorClient::refresh_tab_context_request(token, session, key, fs_key, b"context").unwrap();
    let (token, session, key, fs_key) = identity();
    let sync = CursorClient::fs_sync_file_request(token, session, key, fs_key, b"sync").unwrap();
    assert_eq!(fate.uri, Call::RecordCppFate.endpoint());
    assert_eq!(context.uri, Call::RefreshTabContext.endpoint());
    assert_eq!(sync.uri, Call::FsSyncFile.endpoint());
    assert_eq!(message_in(&fate), b"fate");
    assert_eq!(message_in(&context), b"context");
    assert_eq!(message_in(&sync), b"sync");
    let ids: Vec<&str> =
        [&fate, &context, &sync].map(|request| header(request, "X-Request-Id").unwrap()).to_vec();
    assert!(ids.iter().all(|id| id.len() == 36));
    assert!(ids[0] != ids[1] && ids[1] != ids[2] && ids[0] != ids[2]);
}

#[test]
fn fate_message() {
    let message = CursorClient::record_cpp_fate_message("id".to_string(), CppFate::Reject);
    assert_eq!(message.request_id, "id");
    assert_eq!(message.fate, CppFate::Reject);
    assert_eq!(message.extension, "rs");
}

#[test]
fn success_is_two_hundred_and_up() {
    assert!(!status_is_success(199));
    assert!(status_is_success(200));
    assert!(status_is_success(299));
    assert!(!status_is_success(300));
    assert!(!status_is_success(404));
}

#[test]
fn failed_statuses_are_reported_under_the_name_of_the_call() {
    let errors = [
        CursorClient::get_completion_response(failure(), reply).unwrap_err(),
        CursorClient::record_cpp_fate_response(failure()).unwrap_err(),
        CursorClient::refresh_tab_context_response(failure(), results).unwrap_err(),
        CursorClient::fs_sync_file_response(failure()).unwrap_err(),
    ];
    let messages: Vec<String> = errors.iter().map(|error| error.message().unwrap()).collect();
    assert_eq!(
        messages,
        [
            "API returned status 401 Unauthorized: no token",
            "RecordCppFate returned status 401 Unauthorized: no token",
            "RefreshTabContext returned status 401 Unauthorized: no token",
            "FSSyncFile returned status 401 Unauthorized: no token",
        ]
    );
}

#[test]
fn body_of_a_success_is_handed_on() {
    assert_eq!(answer_body(Call::StreamCpp, success(b"body")).unwrap(), b"body");
    assert!(CursorClient::record_cpp_fate_response(success(b"")).is_ok());
    assert!(CursorClient::fs_sync_file_response(success(b"ignored")).is_ok());
}

#[test]
fn completion_is_read_from_a_success() {
    let mut body = frame(0x00, b"let x");
    body.extend(frame(0x00, b" = 1;"));
    let (text, _, _) = CursorClient::get_completion_response(success(&body), reply).unwrap();
    assert_eq!(text, "let x = 1;");
    assert!(matches!(
        CursorClient::get_completion_response(success(&frame(0x01, b"x")), reply),
        Err(CursorError::Decompress(_))
    ));
}

#[test]
fn context_is_read_from_the_first_message() {
    let read = |body: &[u8]| CursorClient::refresh_tab_context_response(success(body), results);
    let compressed = CursorClient::compress_protobuf(b"two").unwrap();
    let mut body = frame(0x00, b"one");
    body.extend(frame(0x00, b"more"));
    assert_eq!(read(&body).unwrap(), b"one");
    assert_eq!(read(&frame(0x01, &compressed)).unwrap(), b"two");
    assert_eq!(read(b"").unwrap(), b"");
    assert_eq!(read(&[0, 0, 0, 0]).unwrap(), b"");
    assert_eq!(read(&[0, 0, 0, 0, 4, 1]).unwrap(), b"");
    assert_eq!(read(&frame(0x00, b"broken")).unwrap(), b"");
    assert!(matches!(read(&frame(0x01, b"not gzip")), Err(CursorError::Decompress(_))));
}
