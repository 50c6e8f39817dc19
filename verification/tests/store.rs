use logweb::codec::{deserialize_log, serialize_log};
use logweb::store::LogStore;

fn record(timestamp: u64, producer: &[u8], message: &[u8]) -> Vec<u8> {
    let mut out = Vec::new();
    serialize_log(&mut out, timestamp, producer, message);
    out
}

#[test]
fn stored_records_are_read_in_order() {
    let mut store = LogStore::new(1024);
    assert!(!store.has_pending());
    assert!(store.store(1, b"a", b"first"));
    assert!(store.store(2, b"b", b"second"));
    assert!(store.has_pending());
    let mut out = Vec::new();
    let written = store.read_into_at(&mut out, 99);
    let mut expected = record(1, b"a", b"first");
    expected.extend(record(2, b"b", b"second"));
    assert_eq!(written, expected.len());
    assert_eq!(out, expected);
    assert!(!store.has_pending());
}

#[test]
fn record_over_budget_is_dropped_and_reported() {
    let mut store = LogStore::new(20);
    assert!(store.store(5, b"ab", b"xyz"));
    assert!(!store.store(6, b"ab", b"this message does not fit"));
    assert!(store.has_pending());
    let mut out = Vec::new();
    store.read_into_at(&mut out, 1234);
    // The report does not fit next to the stored record, so only the record
    // is read and the drop stays counted.
    assert_eq!(out, record(5, b"ab", b"xyz"));
    assert!(store.has_pending());
    let mut out = Vec::new();
    store.read_into_at(&mut out, 1234);
    let message = "dropped 1 log records because pending buffer exceeded 20 bytes";
    assert_eq!(out, record(1234, b"trap-daemon", message.as_bytes()));
    assert!(!store.has_pending());
    let (log, _) = deserialize_log(&out).unwrap();
    assert_eq!(log.producer, "trap-daemon");
    assert_eq!(log.message, message);
}

#[test]
fn step_reading_matches_read_into() {
    let mut store = LogStore::new(4096);
    store.store(1, b"p", b"one");
    let mut out = Vec::new();
    out.extend_from_slice(store.read_buffer());
    assert_eq!(store.finish_read(), 0);
    store.rotate_at(0);
    out.extend_from_slice(store.read_buffer());
    assert_eq!(store.finish_read(), out.len());
    assert_eq!(out, record(1, b"p", b"one"));
    assert!(!store.has_pending());
}

#[test]
fn many_stores_read_back_in_order_then_nothing() {
    let mut store = LogStore::new(4096);
    let mut expected = Vec::new();
    for i in 0..5u64 {
        let message = format!("message {i}");
        assert!(store.store(i, b"p", message.as_bytes()));
        expected.extend(record(i, b"p", message.as_bytes()));
    }
    let mut out = Vec::new();
    assert_eq!(store.read_into_at(&mut out, 7), expected.len());
    assert_eq!(out, expected);
    assert!(!store.has_pending());
    let mut again = Vec::new();
    assert_eq!(store.read_into_at(&mut again, 8), 0);
    assert!(again.is_empty());
}
