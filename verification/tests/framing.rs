use cursor::client::CursorClient;
use cursor::envelope::{
    frame, open_payload, seal, split_frame, COMPRESSED_FLAG, END_OF_STREAM_FLAG,
};
use cursor::error::CursorError;

#[test]
fn frame_has_flags_length_and_payload() {
    assert_eq!(frame(0x01, b"abc"), vec![1, 0, 0, 0, 3, b'a', b'b', b'c']);
    assert_eq!(frame(0x02, b""), vec![2, 0, 0, 0, 0]);
    let long = vec![7u8; 0x1_0203];
    let framed = frame(0x00, &long);
    assert_eq!(&framed[..5], &[0, 0, 1, 2, 3]);
    assert_eq!(&framed[5..], &long[..]);
}

#[test]
fn frame_is_read_back_with_what_follows() {
    let mut data = frame(0x03, b"payload");
    data.extend_from_slice(b"rest");
    let (flags, payload, rest) = split_frame(&data).unwrap();
    assert_eq!(flags, 0x03);
    assert_eq!(payload, b"payload");
    assert_eq!(rest, b"rest");
    let mut again = frame(flags, payload);
    again.extend_from_slice(rest);
    assert_eq!(again, data);
}

#[test]
fn incomplete_frames_are_not_cut() {
    assert!(split_frame(b"").is_none());
    assert!(split_frame(&[1, 0, 0, 0]).is_none());
    assert!(split_frame(&[1, 0, 0, 0, 2, 9]).is_none());
    assert!(split_frame(&[1, 0xff, 0xff, 0xff, 0xff, 9]).is_none());
    let whole = [0, 0, 0, 0, 0];
    let (flags, payload, rest) = split_frame(&whole).unwrap();
    assert_eq!((flags, payload.len(), rest.len()), (0, 0, 0));
}

#[test]
fn compression_is_gzip_and_is_undone() {
    for data in [&b""[..], b"a", b"fn main() { println!(); }"] {
        let compressed = CursorClient::compress_protobuf(data).unwrap();
        assert_ne!(compressed, data);
        assert_eq!(&compressed[..3], &[0x1f, 0x8b, 8]);
        assert_eq!(CursorClient::decompress_protobuf(&compressed).unwrap(), data);
    }
    let long = vec![b'x'; 100_000];
    let compressed = CursorClient::compress_protobuf(&long).unwrap();
    assert!(compressed.len() < 1_000);
    assert_eq!(CursorClient::decompress_protobuf(&compressed).unwrap(), long);
}

#[test]
fn everything_can_be_compressed() {
    let mut state: u32 = 1;
    let mut noise = Vec::new();
    for _ in 0..200_000 {
        state = state.wrapping_mul(1_664_525).wrapping_add(1_013_904_223);
        noise.push((state >> 24) as u8);
    }
    let compressed = CursorClient::compress_protobuf(&noise).unwrap();
    assert_eq!(CursorClient::decompress_protobuf(&compressed).unwrap(), noise);
}

#[test]
fn compression_depends_on_the_data_alone() {
    let one = CursorClient::compress_protobuf(b"the same").unwrap();
    let two = CursorClient::compress_protobuf(b"the same").unwrap();
    assert_eq!(one, two);
}

#[test]
fn what_is_not_gzip_cannot_be_decompressed() {
    assert!(matches!(
        CursorClient::decompress_protobuf(b"not gzip"),
        Err(CursorError::Decompress(_))
    ));
    assert!(matches!(CursorClient::decompress_protobuf(b""), Err(CursorError::Decompress(_))));
    assert!(matches!(
        CursorClient::decompress_protobuf(&[0u8; 10]),
        Err(CursorError::Decompress(_))
    ));
    let mut cut = CursorClient::compress_protobuf(b"some message").unwrap();
    cut.pop();
    assert!(matches!(CursorClient::decompress_protobuf(&cut), Err(CursorError::Decompress(_))));
    let mut changed = CursorClient::compress_protobuf(b"some message").unwrap();
    let crc = changed.len() - 8;
    changed[crc] ^= 0xff;
    let error = CursorClient::decompress_protobuf(&changed).unwrap_err();
    assert!(matches!(error, CursorError::Decompress(_)));
    assert!(error.message().is_none());
}

#[test]
fn payloads_are_opened_as_their_flags_say() {
    let compressed = CursorClient::compress_protobuf(b"message").unwrap();
    assert_eq!(open_payload(COMPRESSED_FLAG, &compressed).unwrap(), b"message");
    assert_eq!(
        open_payload(COMPRESSED_FLAG | END_OF_STREAM_FLAG, &compressed).unwrap(),
        b"message"
    );
    assert_eq!(open_payload(0x00, &compressed).unwrap(), compressed);
    assert_eq!(open_payload(0xfe, b"plain").unwrap(), b"plain");
    assert!(matches!(open_payload(0x01, b"plain"), Err(CursorError::Decompress(_))));
}

#[test]
fn sealed_message_is_one_compressed_frame() {
    let envelope = seal(b"serialized request").unwrap();
    let (flags, payload, rest) = split_frame(&envelope).unwrap();
    assert_eq!(flags, 0x01);
    assert!(rest.is_empty());
    assert_eq!(payload, CursorClient::compress_protobuf(b"serialized request").unwrap());
    assert_eq!(open_payload(flags, payload).unwrap(), b"serialized request");
}
