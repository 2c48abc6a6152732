//! Reader and forensic analyzer for **Wire desktop** (Electron) messenger stores.
//!
//! Wire desktop keeps all of its evidence in one Chromium IndexedDB store
//! (`IndexedDB/https_app.wire.com_0.indexeddb.leveldb`), laid out as Dexie object
//! stores. This crate interprets the decoded IndexedDB records of that store into
//! typed Wire records ([`WireRecord`]: conversations, events, users, clients), a
//! per-store roll-up and a chronological [`timeline`], and audits an interpreted
//! store into canonical `forensicnomicon` findings ([`audit_store`]).
//!
//! Wire encrypts message content client-side (Proteus) and that key is not in the
//! Chromium OS Safe Storage, so encrypted bodies are surfaced as
//! [`PayloadState::Encrypted`] with their cleartext metadata intact; asking for
//! their plaintext returns [`WireError::EncryptedPayloadUnrecoverable`] rather than
//! plausible-but-wrong bytes.

pub mod audit;
pub mod error;
pub mod idb;
pub mod laws;
pub mod profile;
pub mod record;
pub mod report;
pub mod text;
pub mod timeline;

pub use audit::{
    audit_store, observe, observe_store, AnomalyKind, Category, EvidenceRow, Severity, ANALYZER,
};
pub use error::WireError;
pub use idb::{render_key, IdbKey, IndexedDbRecord, RecordValue, V8Value};
pub use profile::{messages_relative_path, profile_store_path, store_not_found, wire_spec};
pub use record::{
    interpret_records, ObjectStoreSummary, PayloadState, WireRecord, WireRecordKind, WireStore,
};
pub use timeline::{entry_for, timeline, TimelineEntry};
