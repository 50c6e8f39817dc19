use logweb::codec::{
    deserialize_log, serialize_log, serialized_log_len, LogDecodeError, MAX_MESSAGE_SIZE,
    MAX_PRODUCER_SIZE,
};

#[test]
fn serialized_len_counts_header_and_payload() {
    assert_eq!(serialized_log_len(b"app", b"hello"), 11 + 3 + 5);
    assert_eq!(serialized_log_len(b"", b""), 11);
}

#[test]
fn serialized_len_caps_producer_and_message() {
    let producer = vec![b'p'; 300];
    let message = vec![b'm'; 70000];
    assert_eq!(
        serialized_log_len(&producer, &message),
        11 + MAX_PRODUCER_SIZE + MAX_MESSAGE_SIZE
    );
}

#[test]
fn serialize_writes_little_endian_frame() {
    let mut out = vec![0xAA];
    let written = serialize_log(&mut out, 0x0102030405060708, b"ab", b"xyz");
    assert_eq!(written, 16);
    assert_eq!(
        out,
        vec![0xAA, 8, 7, 6, 5, 4, 3, 2, 1, 2, b'a', b'b', 3, 0, b'x', b'y', b'z']
    );
}

#[test]
fn serialize_truncates_long_fields() {
    let producer = vec![b'p'; 300];
    let message = vec![b'm'; 70000];
    let mut out = Vec::new();
    let written = serialize_log(&mut out, 1, &producer, &message);
    assert_eq!(written, 11 + 255 + 65535);
    assert_eq!(out.len(), written);
    assert_eq!(out[8], 255);
    assert_eq!(out[9 + 255], 0xFF);
    assert_eq!(out[10 + 255], 0xFF);
}

#[test]
fn deserialize_reads_back_serialized_record() {
    let mut out = Vec::new();
    serialize_log(&mut out, 1_700_000_000_000_000, b"nginx", "héllo wörld".as_bytes());
    out.extend_from_slice(b"trailing");
    let (log, used) = deserialize_log(&out).unwrap();
    assert_eq!(used, 11 + 5 + "héllo wörld".len());
    assert_eq!(log.timestamp, 1_700_000_000_000_000);
    assert_eq!(log.producer, "nginx");
    assert_eq!(log.message, "héllo wörld");
}

#[test]
fn deserialize_reports_missing_bytes() {
    let mut out = Vec::new();
    serialize_log(&mut out, 7, b"ab", b"xyz");
    assert_eq!(
        deserialize_log(&out[..5]).err(),
        Some(LogDecodeError::UnexpectedEof { needed: 9 })
    );
    assert_eq!(
        deserialize_log(&out[..10]).err(),
        Some(LogDecodeError::UnexpectedEof { needed: 13 })
    );
    assert_eq!(
        deserialize_log(&out[..14]).err(),
        Some(LogDecodeError::UnexpectedEof { needed: 16 })
    );
    assert!(deserialize_log(&out[..16]).is_ok());
}

#[test]
fn deserialize_replaces_invalid_utf8() {
    let mut out = Vec::new();
    serialize_log(&mut out, 0, &[0xff, b'a'], b"ok");
    let (log, _) = deserialize_log(&out).unwrap();
    assert_eq!(log.producer, "\u{FFFD}a");
    assert_eq!(log.message, "ok");
}
