//! The interpret -> timeline -> audit pipeline over many synthesized inputs:
//! every step returns normally and the record-level invariants hold.

use wire_desktop_forensic::{
    audit_store, interpret_records, observe_store, timeline, IdbKey, IndexedDbRecord, RecordValue,
    V8Value,
};

const STORES: [&str; 6] = ["conversations", "events", "users", "clients", "keys", ""];

/// Records with arbitrary keys, store names and V8 object shapes (including
/// opaque `ArrayBuffer` bodies and an undecodable `otr_key` value) from `data`.
fn synth_records(data: &[u8]) -> Vec<IndexedDbRecord> {
    let sel = data.first().copied().unwrap_or(0);
    let store = STORES[sel as usize % STORES.len()];
    let text = String::from_utf8_lossy(data).chars().take(64).collect::<String>();

    let key = match sel % 4 {
        0 => IdbKey::String(text.clone()),
        1 => IdbKey::Binary(data.to_vec()),
        2 => IdbKey::Array(vec![IdbKey::String(text.clone()), IdbKey::Number(1.0f64.to_string())]),
        _ => IdbKey::Invalid(data.to_vec()),
    };

    let body = if data.len() % 3 == 0 {
        V8Value::ArrayBuffer(data.to_vec())
    } else {
        V8Value::Object(vec![("content".to_string(), V8Value::String(text.clone()))])
    };
    let value = RecordValue::V8(V8Value::Object(vec![
        ("id".to_string(), V8Value::String(text.clone())),
        ("conversation".to_string(), V8Value::String(text.clone())),
        ("from".to_string(), V8Value::String(text.clone())),
        ("time".to_string(), V8Value::String(text.clone())),
        ("type".to_string(), V8Value::String("conversation.message-add".to_string())),
        ("name".to_string(), V8Value::String(text)),
        ("data".to_string(), body),
    ]));

    let undecoded = IndexedDbRecord {
        database_id: 1,
        object_store_id: 1,
        database: None,
        object_store: Some(store.to_string()),
        key: IdbKey::String("otr_key".to_string()),
        value: RecordValue::Undecoded { raw: data.to_vec(), error: "fuzz".to_string() },
        seq: u64::from(sel),
        deleted: sel % 2 == 0,
    };

    vec![
        IndexedDbRecord {
            database_id: 1,
            object_store_id: 1,
            database: None,
            object_store: Some(store.to_string()),
            key,
            value,
            seq: u64::from(sel),
            deleted: sel % 2 == 0,
        },
        undecoded,
    ]
}

/// Deterministic pseudo-random byte strings of lengths 0 to 47.
fn inputs() -> Vec<Vec<u8>> {
    let mut state: u32 = 0x9e37_79b9;
    let mut out = Vec::new();
    for len in 0..48usize {
        for _ in 0..6 {
            let mut v = Vec::with_capacity(len);
            for _ in 0..len {
                state ^= state << 13;
                state ^= state >> 17;
                state ^= state << 5;
                v.push((state >> 24) as u8);
            }
            out.push(v);
        }
    }
    out
}

#[test]
fn interpret_timeline_and_audit_hold_on_synthesized_records() {
    for data in inputs() {
        let recs = synth_records(&data);
        let store = interpret_records(&recs);
        assert_eq!(store.records.len(), recs.len());
        let tl = timeline(&store);
        for pair in tl.windows(2) {
            assert!(pair[0].time <= pair[1].time);
        }
        for r in &store.records {
            let _ = r.decrypted_text();
            if r.is_encrypted() {
                assert!(r.text.is_none());
                assert!(r.decrypted_text().is_err());
            }
        }
        let findings = audit_store(&store);
        assert_eq!(findings.len(), observe_store(&store).len());
        // The undecoded otr_key record is always reported as key material.
        assert!(findings.iter().any(|f| f.code == "WIRE-OTR-KEY-PRESENT"));
    }
}
