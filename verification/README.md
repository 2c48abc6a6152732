# wire-desktop-forensic

A reader and forensic analyzer for **Wire desktop** (Electron) messenger
artifacts, written in Verus. Every function of the library is verified against
its contract except the trusted items at the boundary with the outside crates:
the wrappers `build_finding` (`src/report.rs`), `lookup_messenger_spec` and
`lookup_messages_store_path` (`src/profile.rs`), the declared outside types
`Finding` and `MessengerSpec`, and the names given to what the outside calls
return (`report_finding`, `messenger_spec`, `messages_store_path`). Their
contracts are believed, not proved; each one's doc comment says what it claims.

Wire desktop keeps its evidence in one Chromium IndexedDB store
(`IndexedDB/https_app.wire.com_0.indexeddb.leveldb`), laid out as Dexie object
stores (`conversations`, `events`, `users`, `clients`). The library interprets
the decoded IndexedDB records of that store into typed Wire records, a
per-store roll-up and a chronological timeline, and audits an interpreted store
into canonical `forensicnomicon` findings. Client-side (Proteus) encrypted
message bodies are reported as unrecoverable; their plaintext is never
fabricated.

## Layout

- `src/idb.rs`: the decoded IndexedDB records (keys, V8 values) and the text
  rendering of keys and scalar values.
- `src/record.rs`: typed Wire records, their interpretation, and the
  per-object-store roll-up.
- `src/timeline.rs`: the chronological, stable timeline of event records.
- `src/audit.rs`, `src/report.rs`: the analyzer's observations and their
  conversion into `forensicnomicon::report::Finding`s.
- `src/profile.rs`: the store location from the `forensicnomicon` Wire spec.
- `src/error.rs`: typed errors and their messages.
- `src/text.rs`: string comparison, decimal/hex rendering, the timestamp order.
- `src/laws.rs`: the library's laws: the interpretation rules, the order
  independence of the timeline, the wording of notes, and properties that span
  several functions.
- `app/`: reading a store directory or a profile from disk with
  `chromium-storage-indexeddb`, and the `Display` form of errors.
- `tests/`: scenario tests of the reader, timeline and analyzer.
