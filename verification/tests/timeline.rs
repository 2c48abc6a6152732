//! Timeline reconstruction over event records.

use wire_desktop_forensic::{
    interpret_records, timeline, IdbKey, IndexedDbRecord, PayloadState, RecordValue, V8Value,
};

fn s(v: &str) -> V8Value {
    V8Value::String(v.to_string())
}

fn obj(fields: Vec<(&str, V8Value)>) -> V8Value {
    V8Value::Object(fields.into_iter().map(|(k, v)| (k.to_string(), v)).collect())
}

fn record(store: &str, key: &str, value: V8Value) -> IndexedDbRecord {
    IndexedDbRecord {
        database_id: 1,
        object_store_id: 1,
        database: Some("wire".to_string()),
        object_store: Some(store.to_string()),
        key: IdbKey::String(key.to_string()),
        value: RecordValue::V8(value),
        seq: 1,
        deleted: false,
    }
}

#[test]
fn orders_events_by_time_and_keeps_encrypted_entries() {
    let recs = vec![
        record(
            "events",
            "e-late",
            obj(vec![
                ("conversation", s("c1")),
                ("time", s("2026-01-02T10:00:00.000Z")),
                ("type", s("conversation.message-add")),
                ("data", obj(vec![("content", s("second"))])),
            ]),
        ),
        record(
            "events",
            "e-early",
            obj(vec![
                ("conversation", s("c1")),
                ("time", s("2026-01-02T09:00:00.000Z")),
                ("type", s("conversation.otr-message-add")),
                ("data", V8Value::ArrayBuffer(vec![1, 2, 3])),
            ]),
        ),
        // No time: excluded from the timeline.
        record("events", "e-notime", obj(vec![("conversation", s("c1")), ("type", s("system"))])),
        // Non-event record: excluded.
        record("users", "u1", obj(vec![("id", s("u1"))])),
    ];

    let store = interpret_records(&recs);
    let tl = timeline(&store);

    assert_eq!(tl.len(), 2, "only the two timestamped events");
    assert_eq!(tl[0].time, "2026-01-02T09:00:00.000Z");
    assert_eq!(tl[1].time, "2026-01-02T10:00:00.000Z");

    // The earliest is the encrypted one: it stays on the timeline, body marked.
    assert!(matches!(tl[0].payload, PayloadState::Encrypted { .. }));
    assert_eq!(tl[1].payload, PayloadState::Cleartext);
}

#[test]
fn equal_times_keep_store_order() {
    let recs = vec![
        record("events", "a", obj(vec![("time", s("2026-01-02T10:00:00.000Z")), ("from", s("first"))])),
        record("events", "b", obj(vec![("time", s("2026-01-02T08:00:00.000Z")), ("from", s("early"))])),
        record("events", "c", obj(vec![("time", s("2026-01-02T10:00:00.000Z")), ("from", s("second"))])),
        record("events", "d", obj(vec![("time", s("2026-01-02T10:00:00.000Z")), ("from", s("third"))])),
    ];
    let tl = timeline(&interpret_records(&recs));
    let senders: Vec<&str> = tl.iter().map(|e| e.sender.as_deref().unwrap()).collect();
    assert_eq!(senders, vec!["early", "first", "second", "third"]);
}

#[test]
fn shorter_prefix_time_sorts_first_and_tombstones_are_kept() {
    let mut gone = record("events", "x", obj(vec![("time", s("2026-01-02"))]));
    gone.deleted = true;
    let recs = vec![record("events", "y", obj(vec![("time", s("2026-01-02T00:00:00Z"))])), gone];
    let tl = timeline(&interpret_records(&recs));
    assert_eq!(tl[0].time, "2026-01-02");
    assert!(tl[0].deleted);
    assert!(!tl[1].deleted);
}

#[test]
fn empty_store_has_empty_timeline() {
    assert!(timeline(&interpret_records(&[])).is_empty());
}

fn distinct_time_records() -> Vec<IndexedDbRecord> {
    vec![
        record("events", "a", obj(vec![("time", s("2026-01-02T09:00:00.000Z")), ("data", obj(vec![("content", s("one"))]))])),
        record("events", "b", obj(vec![("time", s("2026-01-02T08:00:00.000Z")), ("otr", s("x"))])),
        record("users", "u1", obj(vec![("id", s("u1"))])),
        record("events", "c", obj(vec![("time", s("2026-01-03T00:00:00.000Z")), ("type", s("system"))])),
    ]
}

#[test]
fn timeline_does_not_depend_on_record_order_when_times_differ() {
    let first = distinct_time_records();
    let mut second = distinct_time_records();
    second.reverse();
    second.swap(0, 2);
    let t1 = timeline(&interpret_records(&first));
    let t2 = timeline(&interpret_records(&second));
    assert_eq!(t1.len(), 3);
    assert_eq!(t1, t2);
    let times: Vec<&str> = t1.iter().map(|e| e.time.as_str()).collect();
    assert_eq!(times, vec!["2026-01-02T08:00:00.000Z", "2026-01-02T09:00:00.000Z", "2026-01-03T00:00:00.000Z"]);
}
