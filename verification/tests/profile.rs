//! Resolving the Wire store from the forensicnomicon desktop-messenger knowledge.

use forensicnomicon_core::messenger_desktop::StoreRole;
use wire_desktop_forensic::{messages_relative_path, profile_store_path, store_not_found, wire_spec, WireError};

#[test]
fn wire_spec_resolves_from_knowledge_leaf() {
    let spec = wire_spec().expect("Wire spec present in forensicnomicon-core");
    assert_eq!(spec.app, "Wire");
    // The Messages store path is the IndexedDB LevelDB directory.
    let msgs = spec.store(StoreRole::Messages).expect("messages store");
    assert!(msgs.relative_path.contains(".indexeddb.leveldb"));
}

#[test]
fn profile_store_path_comes_from_the_spec() {
    let relative = profile_store_path("/evidence/Wire").expect("Wire spec present");
    assert_eq!(relative, "IndexedDB/https_app.wire.com_0.indexeddb.leveldb");
    assert_eq!(messages_relative_path(wire_spec().unwrap()), relative);
}

#[test]
fn absent_store_error_names_the_expected_path() {
    let relative = profile_store_path("/tmp/nowhere").unwrap();
    let err = store_not_found("/tmp/nowhere", relative);
    assert!(matches!(err, WireError::StoreNotFound { .. }));
    assert!(err.message().contains(".indexeddb.leveldb"));
    assert_eq!(
        err.message(),
        "Wire profile at /tmp/nowhere has no IndexedDB store at the expected path IndexedDB/https_app.wire.com_0.indexeddb.leveldb"
    );
}

#[test]
fn error_messages_match_their_display_text() {
    let read = WireError::Read { path: "/x/no-such-store-dir".to_string(), detail: "missing".to_string() };
    assert_eq!(read.message(), "failed to read Wire IndexedDB store at /x/no-such-store-dir: missing");
    assert_eq!(
        WireError::EncryptedPayloadUnrecoverable.message(),
        "message payload is client-side (Proteus) encrypted; Wire's message key is NOT held in the Chromium OS Safe Storage, so the plaintext is unrecoverable from this artifact"
    );
}
