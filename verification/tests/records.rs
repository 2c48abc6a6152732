//! Interpretation of decoded IndexedDB records into typed Wire records.

use wire_desktop_forensic::{
    interpret_records, render_key, IdbKey, IndexedDbRecord, PayloadState, RecordValue, V8Value, WireError,
    WireRecordKind, WireStore,
};
use wire_desktop_forensic::record::{fill_event, interpret_one, is_encrypted_payload, message_text};

fn s(v: &str) -> V8Value {
    V8Value::String(v.to_string())
}

fn obj(fields: Vec<(&str, V8Value)>) -> V8Value {
    V8Value::Object(fields.into_iter().map(|(k, v)| (k.to_string(), v)).collect())
}

fn record(store: &str, key: &str, value: V8Value) -> IndexedDbRecord {
    IndexedDbRecord {
        database_id: 1,
        object_store_id: 1,
        database: Some("wire".to_string()),
        object_store: Some(store.to_string()),
        key: IdbKey::String(key.to_string()),
        value: RecordValue::V8(value),
        seq: 1,
        deleted: false,
    }
}

fn deleted_record(store: &str, key: &str, value: V8Value) -> IndexedDbRecord {
    let mut r = record(store, key, value);
    r.deleted = true;
    r
}

fn undecoded_record(store: &str, key: &str, error: &str) -> IndexedDbRecord {
    let mut r = record(store, key, V8Value::Null);
    r.value = RecordValue::Undecoded { raw: vec![0xff, 0xff], error: error.to_string() };
    r
}

#[test]
fn extracts_client_id_and_device_label() {
    let recs = vec![record(
        "clients",
        "client-7f",
        obj(vec![("id", s("7f3a")), ("class", s("desktop")), ("model", s("Wire for macOS"))]),
    )];

    let store = interpret_records(&recs);
    let client = store
        .records
        .iter()
        .find(|r| r.kind == WireRecordKind::Client)
        .expect("a client record");

    assert_eq!(client.id.as_deref(), Some("7f3a"));
    // The device label prefers the model, falling back to the class.
    assert_eq!(client.name.as_deref(), Some("Wire for macOS"));
}

#[test]
fn falls_back_to_class_when_no_model() {
    let recs = vec![record("clients", "client-01", obj(vec![("id", s("01")), ("class", s("desktop"))]))];
    let store = interpret_records(&recs);
    let client = store.records.iter().find(|r| r.kind == WireRecordKind::Client).unwrap();
    assert_eq!(client.name.as_deref(), Some("desktop"));
}

#[test]
fn client_label_falls_back_to_label_property() {
    let recs = vec![record("clients", "client-02", obj(vec![("id", s("02")), ("label", s("work laptop"))]))];
    let store = interpret_records(&recs);
    assert_eq!(store.records[0].name.as_deref(), Some("work laptop"));
}

#[test]
fn extracts_conversation_id_and_name() {
    let recs = vec![record(
        "conversations",
        "conv-1",
        obj(vec![("id", s("conv-1")), ("name", s("Incident Ops")), ("type", s("group"))]),
    )];

    let store = interpret_records(&recs);
    let conv = store
        .records
        .iter()
        .find(|r| r.kind == WireRecordKind::Conversation)
        .expect("a conversation record");

    assert_eq!(conv.id.as_deref(), Some("conv-1"));
    assert_eq!(conv.conversation.as_deref(), Some("conv-1"));
    assert_eq!(conv.name.as_deref(), Some("Incident Ops"));
}

#[test]
fn extracts_user_id_and_display_name() {
    let recs = vec![record(
        "users",
        "user-alice",
        obj(vec![("id", s("user-alice")), ("name", s("Alice Example")), ("handle", s("alice"))]),
    )];

    let store = interpret_records(&recs);
    let user = store
        .records
        .iter()
        .find(|r| r.kind == WireRecordKind::User)
        .expect("a user record");

    assert_eq!(user.id.as_deref(), Some("user-alice"));
    assert_eq!(user.name.as_deref(), Some("Alice Example"));
}

#[test]
fn extracts_event_metadata_and_cleartext_body() {
    let recs = vec![record(
        "events",
        "conv-1@ev-1",
        obj(vec![
            ("id", s("ev-1")),
            ("conversation", s("conv-1")),
            ("from", s("user-alice")),
            ("time", s("2026-01-02T03:04:05.000Z")),
            ("type", s("conversation.message-add")),
            ("data", obj(vec![("content", s("meet at 9"))])),
        ]),
    )];

    let store = interpret_records(&recs);
    let ev = store
        .records
        .iter()
        .find(|r| r.kind == WireRecordKind::Event)
        .expect("an event record");

    assert_eq!(ev.id.as_deref(), Some("ev-1"));
    assert_eq!(ev.conversation.as_deref(), Some("conv-1"));
    assert_eq!(ev.sender.as_deref(), Some("user-alice"));
    assert_eq!(ev.time.as_deref(), Some("2026-01-02T03:04:05.000Z"));
    assert_eq!(ev.message_type.as_deref(), Some("conversation.message-add"));
    assert_eq!(ev.text.as_deref(), Some("meet at 9"));
    assert_eq!(ev.payload, PayloadState::Cleartext);
    assert!(!ev.is_encrypted());
    // A cleartext body is returned verbatim (no fabrication needed).
    assert_eq!(ev.decrypted_text().unwrap(), "meet at 9");
}

#[test]
fn top_level_text_field_is_also_recovered() {
    let recs = vec![record(
        "events",
        "conv-1@ev-2",
        obj(vec![
            ("conversation", s("conv-1")),
            ("type", s("conversation.message-add")),
            ("text", s("top-level body")),
        ]),
    )];
    let store = interpret_records(&recs);
    let ev = store.events().into_iter().next().expect("event");
    assert_eq!(ev.text.as_deref(), Some("top-level body"));
}

#[test]
fn sender_falls_back_to_sender_property() {
    let recs = vec![record("events", "e", obj(vec![("sender", s("user-carol"))]))];
    let store = interpret_records(&recs);
    assert_eq!(store.records[0].sender.as_deref(), Some("user-carol"));
}

#[test]
fn scalar_values_render_as_text() {
    let recs = vec![record(
        "users",
        "u",
        obj(vec![("id", V8Value::Int(-42)), ("name", V8Value::Bool(true))]),
    )];
    let store = interpret_records(&recs);
    assert_eq!(store.records[0].id.as_deref(), Some("-42"));
    assert_eq!(store.records[0].name.as_deref(), Some("true"));

    let recs = vec![record("users", "u", obj(vec![("id", V8Value::Int(i64::MIN)), ("name", V8Value::Array(vec![]))]))];
    let store = interpret_records(&recs);
    assert_eq!(store.records[0].id.as_deref(), Some("-9223372036854775808"));
    // Containers have no text form.
    assert_eq!(store.records[0].name, None);
}

fn encrypted_event() -> Vec<IndexedDbRecord> {
    vec![record(
        "events",
        "conv-1@ev-enc",
        obj(vec![
            ("conversation", s("conv-1")),
            ("from", s("user-bob")),
            ("time", s("2026-01-02T03:05:00.000Z")),
            ("type", s("conversation.otr-message-add")),
            // Opaque Proteus ciphertext: no cleartext content.
            ("data", V8Value::ArrayBuffer(vec![0xde, 0xad, 0xbe, 0xef])),
        ]),
    )]
}

#[test]
fn encrypted_body_is_marked_unrecoverable_but_metadata_survives() {
    let store = interpret_records(&encrypted_event());
    let ev = store.events().into_iter().next().expect("event");

    // Metadata is cleartext and recovered.
    assert_eq!(ev.conversation.as_deref(), Some("conv-1"));
    assert_eq!(ev.sender.as_deref(), Some("user-bob"));
    assert_eq!(ev.time.as_deref(), Some("2026-01-02T03:05:00.000Z"));

    // Body is encrypted and has no cleartext.
    assert!(ev.is_encrypted());
    assert_eq!(ev.text, None);
    match &ev.payload {
        PayloadState::Encrypted { scheme, .. } => assert_eq!(*scheme, "Proteus"),
        other => panic!("expected Encrypted payload, got {other:?}"),
    }
}

#[test]
fn decrypted_text_fails_loud_and_never_fabricates() {
    let store = interpret_records(&encrypted_event());
    let ev = store.events().into_iter().next().expect("event");
    match ev.decrypted_text() {
        Err(WireError::EncryptedPayloadUnrecoverable) => {}
        other => panic!("expected a loud EncryptedPayloadUnrecoverable error, got {other:?}"),
    }
}

#[test]
fn cipher_marker_field_also_classifies_as_encrypted() {
    let recs = vec![record(
        "events",
        "conv-1@ev-c",
        obj(vec![
            ("conversation", s("conv-1")),
            ("type", s("conversation.message-add")),
            ("data", obj(vec![("cipher_text", s("b64=="))])),
        ]),
    )];
    let store = interpret_records(&recs);
    assert!(store.encrypted_events().into_iter().next().is_some());
}

#[test]
fn top_level_otr_marker_classifies_as_encrypted() {
    let recs = vec![record("events", "e", obj(vec![("otr", V8Value::Null)]))];
    let store = interpret_records(&recs);
    assert!(store.records[0].is_encrypted());
}

#[test]
fn system_event_without_body_stays_cleartext_without_text() {
    let recs = vec![record("events", "e", obj(vec![("type", s("system"))]))];
    let store = interpret_records(&recs);
    let ev = &store.records[0];
    assert_eq!(ev.payload, PayloadState::Cleartext);
    assert_eq!(ev.text, None);
    assert_eq!(ev.decrypted_text().unwrap(), "");
}

#[test]
fn undecoded_value_is_refused_with_its_error() {
    let store = interpret_records(&[undecoded_record("events", "k", "truncated blob")]);
    match store.records[0].decrypted_text() {
        Err(WireError::UndecodedValue(e)) => assert_eq!(e, "truncated blob"),
        other => panic!("expected UndecodedValue, got {other:?}"),
    }
    let err = WireError::UndecodedValue("truncated blob".to_string());
    assert_eq!(err.message(), "record value could not be decoded from its Blink/V8 blob: truncated blob");
}

fn sample() -> Vec<IndexedDbRecord> {
    vec![
        record("conversations", "conv-1", obj(vec![("id", s("conv-1")), ("name", s("Ops"))])),
        record(
            "events",
            "conv-1@1",
            obj(vec![("conversation", s("conv-1")), ("type", s("conversation.message-add"))]),
        ),
        deleted_record("events", "conv-1@2", obj(vec![("conversation", s("conv-1"))])),
        record("users", "user-1", obj(vec![("id", s("user-1"))])),
        record("clients", "client-1", obj(vec![("id", s("client-1"))])),
        undecoded_record("events", "conv-1@3", "truncated blob"),
    ]
}

#[test]
fn enumerates_object_stores_with_roles_and_counts() {
    let store: WireStore = interpret_records(&sample());

    let names: Vec<&str> = store.object_stores.iter().map(|o| o.name.as_str()).collect();
    assert!(names.contains(&"conversations"));
    assert!(names.contains(&"events"));
    assert!(names.contains(&"users"));
    assert!(names.contains(&"clients"));

    let events = store.object_stores.iter().find(|o| o.name == "events").expect("events summary");
    assert_eq!(events.kind, WireRecordKind::Event);
    assert_eq!(events.records, 3);
    assert_eq!(events.deleted, 1);

    let convs = store
        .object_stores
        .iter()
        .find(|o| o.name == "conversations")
        .expect("conversations summary");
    assert_eq!(convs.kind, WireRecordKind::Conversation);
    assert_eq!(convs.records, 1);
}

#[test]
fn passes_every_record_through_with_store_key_and_flags() {
    let store = interpret_records(&sample());
    assert_eq!(store.records.len(), 6);

    let deleted = store.records.iter().find(|r| r.primary_key == "conv-1@2").unwrap();
    assert_eq!(deleted.store, "events");
    assert_eq!(deleted.kind, WireRecordKind::Event);
    assert!(deleted.deleted);

    let undecoded = store.records.iter().find(|r| r.primary_key == "conv-1@3").unwrap();
    assert!(matches!(undecoded.payload, PayloadState::Undecoded { .. }));
}

#[test]
fn summaries_follow_first_appearance_and_skip_unnamed_stores() {
    let mut unnamed = record("events", "x", obj(vec![]));
    unnamed.object_store = None;
    let recs = vec![
        record("users", "u1", obj(vec![])),
        unnamed,
        record("events", "e1", obj(vec![("data", V8Value::ArrayBuffer(vec![1]))])),
        record("users", "u2", obj(vec![])),
        record("keys", "otr_key", obj(vec![])),
    ];
    let store = interpret_records(&recs);
    let names: Vec<&str> = store.object_stores.iter().map(|o| o.name.as_str()).collect();
    assert_eq!(names, vec!["users", "events", "keys"]);
    assert_eq!(store.object_stores[0].records, 2);
    assert_eq!(store.object_stores[1].encrypted_payloads, 1);
    assert_eq!(store.object_stores[2].kind, WireRecordKind::Unknown);
    // Every record of a named store is counted exactly once.
    let total: usize = store.object_stores.iter().map(|o| o.records).sum();
    assert_eq!(total, 4);
    // The unnamed record is still passed through.
    assert_eq!(store.records.len(), 5);
    assert_eq!(store.records[1].store, "");
    assert_eq!(store.records[1].kind, WireRecordKind::Unknown);
}

#[test]
fn record_queries_filter_in_source_order() {
    let store = interpret_records(&sample());
    let events: Vec<&str> = store.records_in("events").iter().map(|r| r.primary_key.as_str()).collect();
    assert_eq!(events, vec!["conv-1@1", "conv-1@2", "conv-1@3"]);
    assert_eq!(store.events().len(), 3);
    assert!(store.encrypted_events().is_empty());
    assert!(store.records_in("nope").is_empty());
}

#[test]
fn kinds_map_from_store_names_and_have_labels() {
    assert_eq!(WireRecordKind::from_store_name("conversations"), WireRecordKind::Conversation);
    assert_eq!(WireRecordKind::from_store_name("events"), WireRecordKind::Event);
    assert_eq!(WireRecordKind::from_store_name("users"), WireRecordKind::User);
    assert_eq!(WireRecordKind::from_store_name("clients"), WireRecordKind::Client);
    assert_eq!(WireRecordKind::from_store_name("event"), WireRecordKind::Unknown);
    assert_eq!(WireRecordKind::Conversation.as_str(), "conversation");
    assert_eq!(WireRecordKind::Event.as_str(), "event");
    assert_eq!(WireRecordKind::User.as_str(), "user");
    assert_eq!(WireRecordKind::Client.as_str(), "client");
    assert_eq!(WireRecordKind::Unknown.as_str(), "unknown");
}

#[test]
fn primary_keys_render_as_stable_text() {
    assert_eq!(render_key(&IdbKey::String("k".to_string())), "k");
    assert_eq!(render_key(&IdbKey::Number("1.5".to_string())), "1.5");
    assert_eq!(render_key(&IdbKey::Binary(vec![0x00, 0xab, 0x7f])), "0x00ab7f");
    assert_eq!(render_key(&IdbKey::Invalid(vec![0xde, 0xad])), "invalid:0xdead");
    assert_eq!(render_key(&IdbKey::Null), "null");
    assert_eq!(render_key(&IdbKey::Min), "min");
    assert_eq!(
        render_key(&IdbKey::Array(vec![
            IdbKey::String("a".to_string()),
            IdbKey::Array(vec![IdbKey::Date("3".to_string()), IdbKey::Null]),
        ])),
        "[a,[3,null]]"
    );
    assert_eq!(render_key(&IdbKey::Array(vec![])), "[]");
}

#[test]
fn message_body_prefers_data_content_then_data_text_then_own_fields() {
    let all = obj(vec![
        ("data", obj(vec![("content", s("a")), ("text", s("b"))])),
        ("content", s("c")),
        ("text", s("d")),
    ]);
    assert_eq!(message_text(&all).as_deref(), Some("a"));
    let data_text = obj(vec![("data", obj(vec![("text", s("b"))])), ("content", s("c"))]);
    assert_eq!(message_text(&data_text).as_deref(), Some("b"));
    // A non-scalar `data.content` yields no nested body, so the value's own
    // `content` is read.
    let nested_object = obj(vec![("data", obj(vec![("content", obj(vec![]))])), ("content", s("c"))]);
    assert_eq!(message_text(&nested_object).as_deref(), Some("c"));
    assert_eq!(message_text(&obj(vec![("text", s("d"))])).as_deref(), Some("d"));
    assert_eq!(message_text(&s("not an object")), None);
}

#[test]
fn any_cipher_marker_key_classifies_whatever_its_value() {
    assert!(is_encrypted_payload(&obj(vec![("encrypted", V8Value::Bool(false))])));
    assert!(is_encrypted_payload(&obj(vec![("data", obj(vec![("cipherText", V8Value::Null)]))])));
    assert!(is_encrypted_payload(&V8Value::ArrayBuffer(vec![])));
    assert!(is_encrypted_payload(&obj(vec![("data", V8Value::ArrayBuffer(vec![7]))])));
    assert!(!is_encrypted_payload(&obj(vec![("content", s("hi"))])));
    assert!(!is_encrypted_payload(&s("otr")));
}

#[test]
fn event_body_cleartext_wins_over_cipher_markers() {
    // A record of a store with no Wire role is the bare base record.
    let base = record("notes", "n1", obj(vec![]));
    let mut wr = interpret_one("notes", &base);
    assert_eq!(wr.kind, WireRecordKind::Unknown);
    fill_event(&mut wr, &obj(vec![("otr", s("x")), ("data", obj(vec![("content", s("hi"))]))]));
    assert_eq!(wr.text.as_deref(), Some("hi"));
    assert_eq!(wr.payload, PayloadState::Cleartext);

    let mut wr = interpret_one("notes", &base);
    fill_event(&mut wr, &obj(vec![("otr", s("x")), ("from", s("alice"))]));
    assert_eq!(wr.text, None);
    assert_eq!(
        wr.payload,
        PayloadState::Encrypted {
            scheme: "Proteus",
            reason: "Wire message key is not held in the Chromium OS Safe Storage"
        }
    );
    assert_eq!(wr.sender.as_deref(), Some("alice"));

    let mut wr = interpret_one("notes", &base);
    fill_event(&mut wr, &obj(vec![("type", s("system"))]));
    assert_eq!(wr.text, None);
    assert_eq!(wr.payload, PayloadState::Cleartext);
    assert_eq!(wr.message_type.as_deref(), Some("system"));
}

#[test]
fn non_scalar_from_gives_no_sender_without_reading_sender() {
    let recs = vec![record(
        "events",
        "e1",
        obj(vec![("from", obj(vec![("id", s("u1"))])), ("sender", s("bob"))]),
    )];
    let store = interpret_records(&recs);
    assert_eq!(store.records[0].sender, None);
}

#[test]
fn unread_records_keep_only_their_identity() {
    let unknown = record("notes", "n1", obj(vec![("id", s("x")), ("name", s("y")), ("time", s("t"))]));
    let wr = interpret_one("notes", &unknown);
    assert_eq!(wr.store, "notes");
    assert_eq!(wr.kind, WireRecordKind::Unknown);
    assert_eq!(wr.primary_key, "n1");
    assert_eq!((wr.id.clone(), wr.name.clone(), wr.time.clone(), wr.text.clone()), (None, None, None, None));
    assert_eq!(wr.payload, PayloadState::Cleartext);

    let broken = undecoded_record("events", "e9", "truncated blob");
    let wr = interpret_one("events", &broken);
    assert_eq!(wr.kind, WireRecordKind::Event);
    assert_eq!((wr.id.clone(), wr.sender.clone(), wr.time.clone(), wr.text.clone()), (None, None, None, None));
    assert_eq!(wr.payload, PayloadState::Undecoded { error: "truncated blob".to_string() });
    assert_eq!(wr.seq, 1);
    assert!(!wr.deleted);
}
