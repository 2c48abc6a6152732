//! Analyzer: audit an interpreted Wire store into forensicnomicon findings.

use forensicnomicon::report::{Category, Finding, Location, Severity};
use wire_desktop_forensic::{Category as Lens, Severity as Grade};
use wire_desktop_forensic::{
    audit_store, interpret_records, observe_store, AnomalyKind, IdbKey, IndexedDbRecord,
    RecordValue, V8Value, WireStore,
};

fn s(v: &str) -> V8Value {
    V8Value::String(v.to_string())
}

fn obj(fields: Vec<(&str, V8Value)>) -> V8Value {
    V8Value::Object(fields.into_iter().map(|(k, v)| (k.to_string(), v)).collect())
}

fn record(store: &str, key: &str, value: V8Value) -> IndexedDbRecord {
    IndexedDbRecord {
        database_id: 1,
        object_store_id: 1,
        database: Some("wire".to_string()),
        object_store: Some(store.to_string()),
        key: IdbKey::String(key.to_string()),
        value: RecordValue::V8(value),
        seq: 1,
        deleted: false,
    }
}

fn deleted_record(store: &str, key: &str, value: V8Value) -> IndexedDbRecord {
    let mut r = record(store, key, value);
    r.deleted = true;
    r
}

fn store() -> WireStore {
    interpret_records(&[
        // Cleartext message.
        record(
            "events",
            "c1@ev-clear",
            obj(vec![
                ("conversation", s("c1")),
                ("from", s("alice")),
                ("time", s("2026-01-02T09:00:00.000Z")),
                ("type", s("conversation.message-add")),
                ("data", obj(vec![("content", s("hello"))])),
            ]),
        ),
        // Encrypted message (Proteus; unrecoverable).
        record(
            "events",
            "c1@ev-enc",
            obj(vec![
                ("conversation", s("c1")),
                ("time", s("2026-01-02T09:01:00.000Z")),
                ("type", s("conversation.otr-message-add")),
                ("data", V8Value::ArrayBuffer(vec![0xde, 0xad])),
            ]),
        ),
        // Recovered deletion tombstone.
        deleted_record("events", "c1@ev-del", obj(vec![("conversation", s("c1"))])),
        // Exposed attachment key material (documented Wire otr_key).
        record("keys", "otr_key", obj(vec![("id", s("otr_key"))])),
    ])
}

fn has(findings: &[Finding], code: &str) -> bool {
    findings.iter().any(|f| f.code == code)
}

#[test]
fn flags_encrypted_payload_as_info_provenance() {
    let f = audit_store(&store());
    let enc = f
        .iter()
        .find(|x| x.code == "WIRE-MESSAGE-ENCRYPTED-UNRECOVERABLE")
        .expect("encrypted-payload finding");
    assert_eq!(enc.severity, Some(Severity::Info));
    assert_eq!(enc.category, Category::Provenance);
    assert!(enc.note.to_lowercase().contains("unrecoverable"));
}

#[test]
fn recovers_cleartext_message_as_residue() {
    let f = audit_store(&store());
    let c = f.iter().find(|x| x.code == "WIRE-MESSAGE-CLEARTEXT").expect("cleartext finding");
    assert_eq!(c.severity, Some(Severity::Low));
    assert_eq!(c.category, Category::Residue);
}

#[test]
fn flags_recovered_deleted_record() {
    let f = audit_store(&store());
    let d = f.iter().find(|x| x.code == "WIRE-RECORD-DELETED-RESIDUAL").expect("deleted-record finding");
    assert_eq!(d.severity, Some(Severity::Medium));
    assert_eq!(d.category, Category::Residue);
}

#[test]
fn flags_present_otr_key_material() {
    let f = audit_store(&store());
    let k = f.iter().find(|x| x.code == "WIRE-OTR-KEY-PRESENT").expect("otr-key finding");
    assert_eq!(k.severity, Some(Severity::High));
    assert_eq!(k.category, Category::Threat);
    // Every finding names the producing analyzer.
    assert_eq!(k.source.analyzer, wire_desktop_forensic::ANALYZER);
}

#[test]
fn encrypted_event_without_conversation_or_time_still_flags() {
    // Exercises the empty-evidence path (no conversation, no time).
    let recs = vec![record(
        "events",
        "ev-bare",
        obj(vec![("type", s("conversation.otr-message-add")), ("data", V8Value::ArrayBuffer(vec![0x00]))]),
    )];
    let f = audit_store(&interpret_records(&recs));
    let enc = f
        .iter()
        .find(|x| x.code == "WIRE-MESSAGE-ENCRYPTED-UNRECOVERABLE")
        .expect("encrypted finding");
    assert!(enc.evidence.is_empty());
}

#[test]
fn clean_store_yields_no_findings_of_note() {
    let empty = interpret_records(&[record("users", "u1", obj(vec![("id", s("u1"))]))]);
    let f = audit_store(&empty);
    assert!(!has(&f, "WIRE-MESSAGE-ENCRYPTED-UNRECOVERABLE"));
    assert!(!has(&f, "WIRE-RECORD-DELETED-RESIDUAL"));
    assert!(!has(&f, "WIRE-OTR-KEY-PRESENT"));
}

#[test]
fn findings_carry_notes_evidence_source_and_mitre() {
    let f = audit_store(&store());
    assert_eq!(f.len(), 4);
    let codes: Vec<&str> = f.iter().map(|x| x.code.as_ref()).collect();
    assert_eq!(
        codes,
        vec![
            "WIRE-MESSAGE-CLEARTEXT",
            "WIRE-MESSAGE-ENCRYPTED-UNRECOVERABLE",
            "WIRE-RECORD-DELETED-RESIDUAL",
            "WIRE-OTR-KEY-PRESENT",
        ]
    );
    assert_eq!(
        f[0].note,
        "a cleartext message body was recovered from conversation c1 in the Wire IndexedDB"
    );
    assert_eq!(f[0].evidence.len(), 2);
    assert_eq!(f[0].evidence[0].field, "conversation");
    assert_eq!(f[0].evidence[0].value, "c1");
    assert_eq!(f[0].evidence[1].field, "time");
    assert_eq!(f[0].evidence[1].value, "2026-01-02T09:00:00.000Z");
    assert_eq!(
        f[2].note,
        "a deleted Wire record (events/c1@ev-del) survives as a LevelDB tombstone and was recovered \u{2014} consistent with residual data after deletion"
    );
    assert_eq!(f[2].evidence[0].value, "events/c1@ev-del");
    assert_eq!(f[2].evidence[0].location, Some(Location::Key("c1@ev-del".to_string())));
    assert!(f[2].context.external_refs.is_empty());
    assert_eq!(f[3].context.external_refs.len(), 1);
    assert_eq!(f[3].context.external_refs[0].id, "T1552");
    assert_eq!(f[3].source.scope, "IndexedDB");
    assert_eq!(f[3].source.version.as_deref(), Some("0.1.0"));
}

#[test]
fn otr_key_match_ignores_ascii_case_and_position() {
    let recs = vec![
        record("keys", "attachment-OTR_Key-7", obj(vec![])),
        record("keys", "otr-key", obj(vec![])),
    ];
    let observed = observe_store(&interpret_records(&recs));
    assert_eq!(observed.len(), 1);
    assert!(matches!(&observed[0], AnomalyKind::OtrKeyPresent { primary_key, .. } if primary_key == "attachment-OTR_Key-7"));
}

#[test]
fn anomaly_kinds_map_to_codes_grades_and_notes() {
    let enc = AnomalyKind::EncryptedMessage { conversation: None, time: None };
    assert_eq!(enc.code(), "WIRE-MESSAGE-ENCRYPTED-UNRECOVERABLE");
    assert_eq!(enc.severity(), Grade::Info);
    assert_eq!(enc.category(), Lens::Provenance);
    assert_eq!(
        enc.note(),
        "a message in conversation <unknown> is client-side (Proteus) encrypted; Wire's message key is not held in the Chromium OS Safe Storage, so the plaintext is unrecoverable from this artifact"
    );
    assert!(enc.mitre().is_empty());
    let otr = AnomalyKind::OtrKeyPresent { store: "keys".to_string(), primary_key: "otr_key".to_string() };
    assert_eq!(otr.mitre(), &["T1552"]);
    assert_eq!(
        otr.note(),
        "the Wire otr_key attachment key is present in the IndexedDB (keys/otr_key) \u{2014} consistent with recoverable attachment-decryption key material"
    );
    assert_eq!(otr.evidence().len(), 1);
    assert_eq!(otr.evidence()[0].key.as_deref(), Some("otr_key"));
}
