use cursor::client::CursorClient;
use cursor::envelope::{frame, seal};
use cursor::error::CursorError;
use cursor::stream::{absorb, LineRange, StreamCppResponse};
use prost::Message;

/// Reads a message of the form `text|done|binding|start-end`; every field but the text may
/// be left empty.
fn decode(bytes: &[u8]) -> Option<StreamCppResponse> {
    let message = std::str::from_utf8(bytes).ok()?;
    let fields: Vec<&str> = message.split('|').collect();
    if fields.len() != 4 {
        return None;
    }
    let done_stream = match fields[1] {
        "yes" => Some(true),
        "no" => Some(false),
        _ => None,
    };
    let binding_id = if fields[2].is_empty() { None } else { Some(fields[2].to_string()) };
    let range_to_replace = fields[3].split_once('-').map(|(start, end)| LineRange {
        start_line_number: start.parse().unwrap(),
        end_line_number_inclusive: end.parse().unwrap(),
    });
    Some(StreamCppResponse { text: fields[0].to_string(), done_stream, binding_id, range_to_replace })
}

fn stream(messages: &[(u8, &str)]) -> Vec<u8> {
    let mut data = Vec::new();
    for (flags, message) in messages {
        if flags & 0x01 != 0 {
            let compressed = CursorClient::compress_protobuf(message.as_bytes()).unwrap();
            data.extend(frame(*flags, &compressed));
        } else {
            data.extend(frame(*flags, message.as_bytes()));
        }
    }
    data
}

fn range(start: i32, end: i32) -> Option<LineRange> {
    Some(LineRange { start_line_number: start, end_line_number_inclusive: end })
}

#[test]
fn texts_are_joined_in_order() {
    let data = stream(&[(0, "let |||"), (1, "x = |||"), (0, "1;|||")]);
    let (text, binding, lines) = CursorClient::parse_streaming_response(&data, decode).unwrap();
    assert_eq!(text, "let x = 1;");
    assert_eq!(binding, None);
    assert_eq!(lines, None);
}

#[test]
fn last_binding_and_first_range_count() {
    let data = stream(&[
        (0, "a|||"),
        (1, "b||one|3-4"),
        (0, "c|||"),
        (0, "d||two|7-9"),
        (1, "e|||"),
    ]);
    let (text, binding, lines) = CursorClient::parse_streaming_response(&data, decode).unwrap();
    assert_eq!(text, "abcde");
    assert_eq!(binding.as_deref(), Some("two"));
    assert_eq!(lines, range(3, 4));
}

#[test]
fn done_message_counts_and_ends_the_stream() {
    let data = stream(&[(0, "a|no||"), (0, "b|yes|id|1-2"), (0, "c||later|5-6")]);
    let (text, binding, lines) = CursorClient::parse_streaming_response(&data, decode).unwrap();
    assert_eq!(text, "ab");
    assert_eq!(binding.as_deref(), Some("id"));
    assert_eq!(lines, range(1, 2));
}

#[test]
fn end_marker_ends_the_stream_after_its_message() {
    let data = stream(&[(0, "a|||"), (3, "b|||"), (0, "c|||")]);
    assert_eq!(CursorClient::parse_streaming_response(&data, decode).unwrap().0, "ab");
    let data = stream(&[(2, "a|no||"), (0, "b|||")]);
    assert_eq!(CursorClient::parse_streaming_response(&data, decode).unwrap().0, "a");
}

#[test]
fn messages_that_cannot_be_decoded_are_passed_over() {
    let data = stream(&[(0, "a|||"), (0, "broken"), (1, "broken too"), (0, "b|||")]);
    assert_eq!(CursorClient::parse_streaming_response(&data, decode).unwrap().0, "ab");
}

#[test]
fn end_marker_that_cannot_be_decoded_does_not_end_the_stream() {
    let data = stream(&[(0, "a|||"), (2, "{}"), (0, "b|||")]);
    assert_eq!(CursorClient::parse_streaming_response(&data, decode).unwrap().0, "ab");
}

#[test]
fn incomplete_tail_is_left_out() {
    let mut data = stream(&[(0, "a|||"), (1, "b|||")]);
    let whole = CursorClient::parse_streaming_response(&data, decode).unwrap();
    data.extend_from_slice(&[0, 0, 0, 0, 9, b'c']);
    assert_eq!(CursorClient::parse_streaming_response(&data, decode).unwrap(), whole);
    data.truncate(data.len() - 3);
    assert_eq!(CursorClient::parse_streaming_response(&data, decode).unwrap(), whole);
    assert_eq!(whole.0, "ab");
}

#[test]
fn empty_stream_spells_nothing() {
    assert_eq!(
        CursorClient::parse_streaming_response(b"", decode).unwrap(),
        (String::new(), None, None)
    );
    assert_eq!(
        CursorClient::parse_streaming_response(&[0, 0, 0], decode).unwrap(),
        (String::new(), None, None)
    );
}

#[test]
fn message_that_cannot_be_decompressed_fails_the_stream() {
    let mut data = stream(&[(0, "a|||")]);
    data.extend(frame(0x01, b"not gzip"));
    data.extend(stream(&[(0, "b|||")]));
    assert!(matches!(
        CursorClient::parse_streaming_response(&data, decode),
        Err(CursorError::Decompress(_))
    ));
}

#[test]
fn nothing_after_the_end_can_fail_the_stream() {
    let mut data = stream(&[(0, "a|yes||")]);
    data.extend(frame(0x01, b"not gzip"));
    assert_eq!(CursorClient::parse_streaming_response(&data, decode).unwrap().0, "a");
}

#[test]
fn sealed_messages_are_read_as_a_stream() {
    let mut data = seal("one |||".as_bytes()).unwrap();
    data.extend(seal("two||id|".as_bytes()).unwrap());
    let (text, binding, _) = CursorClient::parse_streaming_response(&data, decode).unwrap();
    assert_eq!(text, "one two");
    assert_eq!(binding.as_deref(), Some("id"));
}

#[test]
fn protobuf_messages_are_read() {
    let read = |bytes: &[u8]| {
        let text = <String as Message>::decode(bytes).ok()?;
        Some(StreamCppResponse {
            text,
            done_stream: None,
            binding_id: None,
            range_to_replace: None,
        })
    };
    let mut data = seal(&"fn ".to_string().encode_to_vec()).unwrap();
    data.extend(frame(0x00, &[0xff, 0xff]));
    data.extend(frame(0x02, &"main()".to_string().encode_to_vec()));
    data.extend(frame(0x00, &" {}".to_string().encode_to_vec()));
    assert_eq!(CursorClient::parse_streaming_response(&data, read).unwrap().0, "fn main()");
}

#[test]
fn one_message_is_absorbed() {
    let mut text = "a".to_string();
    let mut binding = Some("old".to_string());
    let mut lines = None;
    absorb(&mut text, &mut binding, &mut lines, decode(b"b|||2-2").unwrap());
    assert_eq!((text.as_str(), binding.as_deref(), lines), ("ab", Some("old"), range(2, 2)));
    absorb(&mut text, &mut binding, &mut lines, decode(b"c||new|8-8").unwrap());
    assert_eq!((text.as_str(), binding.as_deref(), lines), ("abc", Some("new"), range(2, 2)));
}
