//! Typed Wire records and the interpretation of IndexedDB records into them.
//!
//! Wire desktop is an Electron wrapper over the Wire web client; all evidence
//! lives in the Chromium IndexedDB (`https_app.wire.com_0.indexeddb.leveldb`),
//! organised as Dexie object stores. This module maps each decoded
//! [`IndexedDbRecord`] onto a typed [`WireRecord`] by the object store it came
//! from (`conversations`, `events`, `users`, `clients`).
//!
//! Message bodies are frequently client-side encrypted (Proteus) and Wire's
//! message key is not stored in the Chromium OS Safe Storage, so an encrypted
//! payload is surfaced as [`PayloadState::Encrypted`] with its cleartext metadata
//! intact, and asking for its plaintext fails (see [`WireRecord::decrypted_text`]).

use vstd::prelude::*;
use crate::error::{WireError, WireErrorView};
use crate::idb::{
    IndexedDbRecord, RecordValue, V8Value, key_text, object_field, value_text,
    field_text, opt_text, render_key, obj_field, as_text, text_field,
};
use crate::text::str_eq;

verus! {

/// Which Wire object store a record came from: the Dexie store name mapped to a
/// forensic role.
#[non_exhaustive]
#[derive(Debug, Clone, Copy, PartialEq, Eq, Structural)]
pub enum WireRecordKind {
    /// `conversations`: conversation/group metadata.
    Conversation,
    /// `events`: message and system events (the chat log).
    Event,
    /// `users`: the contact roster.
    User,
    /// `clients`: registered devices/clients.
    Client,
    /// An object store this reader does not map to a Wire role.
    Unknown,
}

/// The Wire role of a Dexie object-store name.
pub open spec fn store_kind(name: Seq<char>) -> WireRecordKind {
    if name == "conversations"@ {
        WireRecordKind::Conversation
    } else if name == "events"@ {
        WireRecordKind::Event
    } else if name == "users"@ {
        WireRecordKind::User
    } else if name == "clients"@ {
        WireRecordKind::Client
    } else {
        WireRecordKind::Unknown
    }
}

/// The stable label of a kind.
pub open spec fn kind_label(kind: WireRecordKind) -> Seq<char> {
    match kind {
        WireRecordKind::Conversation => "conversation"@,
        WireRecordKind::Event => "event"@,
        WireRecordKind::User => "user"@,
        WireRecordKind::Client => "client"@,
        WireRecordKind::Unknown => "unknown"@,
    }
}

impl WireRecordKind {
    /// Map a Dexie object-store name to its Wire role.
    pub fn from_store_name(name: &str) -> (kind: WireRecordKind)
        ensures
            kind == store_kind(name@),
    {
        if str_eq(name, "conversations") {
            WireRecordKind::Conversation
        } else if str_eq(name, "events") {
            WireRecordKind::Event
        } else if str_eq(name, "users") {
            WireRecordKind::User
        } else if str_eq(name, "clients") {
            WireRecordKind::Client
        } else {
            WireRecordKind::Unknown
        }
    }

    /// A stable label for the kind.
    pub fn as_str(&self) -> (label: &'static str)
        ensures
            label@ == kind_label(*self),
    {
        match self {
            WireRecordKind::Conversation => "conversation",
            WireRecordKind::Event => "event",
            WireRecordKind::User => "user",
            WireRecordKind::Client => "client",
            WireRecordKind::Unknown => "unknown",
        }
    }
}

/// The encryption scheme Wire uses for message content.
pub const PROTEUS_SCHEME: &'static str = "Proteus";

/// Why an encrypted Wire message body is unrecoverable from this artifact.
pub const PROTEUS_REASON: &'static str = "Wire message key is not held in the Chromium OS Safe Storage";

/// The recoverability state of a record's content.
#[non_exhaustive]
#[derive(Debug, PartialEq, Eq)]
pub enum PayloadState {
    /// The content is in cleartext (metadata records, or a message whose body
    /// was extractable).
    Cleartext,
    /// The content is client-side encrypted and its key is not recoverable from
    /// this artifact.
    Encrypted {
        /// The encryption scheme (Wire uses Proteus for message content).
        scheme: &'static str,
        /// Why the plaintext is unrecoverable.
        reason: &'static str,
    },
    /// The value could not be decoded from its Blink/V8 blob upstream.
    Undecoded {
        /// The upstream decode error, verbatim.
        error: String,
    },
}

/// The abstract content of a [`PayloadState`].
pub enum PayloadView {
    /// See [`PayloadState::Cleartext`].
    Cleartext,
    /// See [`PayloadState::Encrypted`].
    Encrypted { scheme: Seq<char>, reason: Seq<char> },
    /// See [`PayloadState::Undecoded`].
    Undecoded { error: Seq<char> },
}

impl View for PayloadState {
    type V = PayloadView;

    open spec fn view(&self) -> PayloadView {
        match self {
            PayloadState::Cleartext => PayloadView::Cleartext,
            PayloadState::Encrypted { scheme, reason } => PayloadView::Encrypted {
                scheme: scheme@,
                reason: reason@,
            },
            PayloadState::Undecoded { error } => PayloadView::Undecoded { error: error@ },
        }
    }
}

impl Clone for PayloadState {
    fn clone(&self) -> (copy: Self)
        ensures
            copy == *self,
    {
        match self {
            PayloadState::Cleartext => PayloadState::Cleartext,
            PayloadState::Encrypted { scheme, reason } => PayloadState::Encrypted {
                scheme: *scheme,
                reason: *reason,
            },
            PayloadState::Undecoded { error } => PayloadState::Undecoded { error: error.clone() },
        }
    }
}

/// The payload the reader assigns to an encrypted Wire message body.
pub open spec fn proteus_payload() -> PayloadView {
    PayloadView::Encrypted { scheme: PROTEUS_SCHEME@, reason: PROTEUS_REASON@ }
}

/// One interpreted Wire record.
///
/// Fields absent from the source record stay `None`; only fields the record
/// actually carries are populated.
#[non_exhaustive]
#[derive(Debug, PartialEq)]
pub struct WireRecord {
    /// The object-store name the record came from.
    pub store: String,
    /// The Wire role of the store.
    pub kind: WireRecordKind,
    /// The record's primary key, rendered as text.
    pub primary_key: String,
    /// The record's own `id` field, if present.
    pub id: Option<String>,
    /// The conversation id the record belongs to, if present.
    pub conversation: Option<String>,
    /// The sender/author (`from`) of an event, if present.
    pub sender: Option<String>,
    /// The event/record timestamp as stored (ISO-8601 string), if present.
    pub time: Option<String>,
    /// The Wire event `type` (e.g. `conversation.message-add`), if present.
    pub message_type: Option<String>,
    /// A human name: conversation name, user display name, or device model.
    pub name: Option<String>,
    /// The cleartext message body, when one was recoverable.
    pub text: Option<String>,
    /// Whether the content is cleartext, encrypted, or undecodable.
    pub payload: PayloadState,
    /// LevelDB sequence number (write ordering).
    pub seq: u64,
    /// `true` if this record is a deletion tombstone recovered from the store.
    pub deleted: bool,
}

/// The abstract content of a [`WireRecord`].
pub struct WireRecordView {
    pub store: Seq<char>,
    pub kind: WireRecordKind,
    pub primary_key: Seq<char>,
    pub id: Option<Seq<char>>,
    pub conversation: Option<Seq<char>>,
    pub sender: Option<Seq<char>>,
    pub time: Option<Seq<char>>,
    pub message_type: Option<Seq<char>>,
    pub name: Option<Seq<char>>,
    pub text: Option<Seq<char>>,
    pub payload: PayloadView,
    pub seq: u64,
    pub deleted: bool,
}

impl View for WireRecord {
    type V = WireRecordView;

    open spec fn view(&self) -> WireRecordView {
        WireRecordView {
            store: self.store@,
            kind: self.kind,
            primary_key: self.primary_key@,
            id: opt_text(self.id),
            conversation: opt_text(self.conversation),
            sender: opt_text(self.sender),
            time: opt_text(self.time),
            message_type: opt_text(self.message_type),
            name: opt_text(self.name),
            text: opt_text(self.text),
            payload: self.payload@,
            seq: self.seq,
            deleted: self.deleted,
        }
    }
}

/// What [`WireRecord::decrypted_text`] answers for a record: the cleartext body
/// (empty when a cleartext record carries none), or the typed refusal.
pub open spec fn decrypted_text_of(r: WireRecordView) -> Result<Seq<char>, WireErrorView> {
    match r.payload {
        PayloadView::Cleartext => Ok(
            match r.text {
                Some(t) => t,
                None => Seq::empty(),
            },
        ),
        PayloadView::Encrypted { .. } => Err(WireErrorView::EncryptedPayloadUnrecoverable),
        PayloadView::Undecoded { error } => Err(WireErrorView::UndecodedValue(error)),
    }
}

impl WireRecord {
    /// The recoverable plaintext of this record's message body.
    ///
    /// Returns the cleartext body for a [`PayloadState::Cleartext`] record. For an
    /// encrypted or undecodable payload it fails with a typed error; it never
    /// fabricates plaintext.
    pub fn decrypted_text(&self) -> (body: Result<&str, WireError>)
        ensures
            match body {
                Ok(t) => decrypted_text_of(self@) == Ok::<Seq<char>, WireErrorView>(t@),
                Err(e) => decrypted_text_of(self@) == Err::<Seq<char>, WireErrorView>(e@),
            },
    {
        match &self.payload {
            PayloadState::Cleartext => match &self.text {
                Some(t) => Ok(t.as_str()),
                None => {
                    let empty = "";
                    proof {
                        reveal_strlit("");
                        assert(empty@ =~= Seq::<char>::empty());
                    }
                    Ok(empty)
                },
            },
            PayloadState::Encrypted { .. } => Err(WireError::EncryptedPayloadUnrecoverable),
            PayloadState::Undecoded { error } => Err(WireError::UndecodedValue(error.clone())),
        }
    }

    /// Whether this record's content is client-side encrypted and unrecoverable.
    pub fn is_encrypted(&self) -> (encrypted: bool)
        ensures
            encrypted == (self.payload@ is Encrypted),
    {
        match &self.payload {
            PayloadState::Encrypted { .. } => true,
            _ => false,
        }
    }
}

/// The object-store name of a decoded record; empty when it was not resolved.
pub open spec fn store_name_of(r: IndexedDbRecord) -> Seq<char> {
    match r.object_store {
        Some(s) => s@,
        None => Seq::empty(),
    }
}

/// The decode state of a record value, independent of its object-store role.
pub open spec fn base_payload_of(v: RecordValue) -> PayloadView {
    match v {
        RecordValue::V8(_) => PayloadView::Cleartext,
        RecordValue::Undecoded { error, .. } => PayloadView::Undecoded { error: error@ },
    }
}

/// The text of the first of the properties `a`, `b` that is present, when scalar.
pub open spec fn first_field_text(v: V8Value, a: Seq<char>, b: Seq<char>) -> Option<Seq<char>> {
    match object_field(v, a) {
        Some(x) => value_text(x),
        None => field_text(v, b),
    }
}

/// The text of the first of the properties `a`, `b`, `c` that is present, when scalar.
pub open spec fn first_of_three_text(v: V8Value, a: Seq<char>, b: Seq<char>, c: Seq<char>) -> Option<Seq<char>> {
    match object_field(v, a) {
        Some(x) => value_text(x),
        None => first_field_text(v, b, c),
    }
}

/// The cleartext message body of an event value: the `content` (else `text`)
/// property of its `data` object, else its own `content` (else `text`) property.
pub open spec fn message_text_of(v: V8Value) -> Option<Seq<char>> {
    let nested = match object_field(v, "data"@) {
        Some(d) => first_field_text(d, "content"@, "text"@),
        None => None,
    };
    match nested {
        Some(t) => Some(t),
        None => first_field_text(v, "content"@, "text"@),
    }
}

/// `true` when the ciphertext-marker property `m` sits on the event value or on
/// its `data` object.
pub open spec fn has_marker(v: V8Value, m: Seq<char>) -> bool {
    object_field(v, m) is Some || match object_field(v, "data"@) {
        Some(d) => object_field(d, m) is Some,
        None => false,
    }
}

/// `true` when an event value carries an opaque body: the value itself or its
/// `data` property is an `ArrayBuffer`, or a ciphertext marker (`cipher_text`,
/// `cipherText`, `otr`, `encrypted`) sits at the top level or under `data`.
pub open spec fn is_encrypted_payload_of(v: V8Value) -> bool {
    ||| v is ArrayBuffer
    ||| match object_field(v, "data"@) {
        Some(d) => d is ArrayBuffer,
        None => false,
    }
    ||| has_marker(v, "cipher_text"@)
    ||| has_marker(v, "cipherText"@)
    ||| has_marker(v, "otr"@)
    ||| has_marker(v, "encrypted"@)
}

/// The record every interpretation starts from: store, role, primary key, seq,
/// tombstone flag and decode-state payload, with no fields extracted.
pub open spec fn base_record_of(r: IndexedDbRecord) -> WireRecordView {
    WireRecordView {
        store: store_name_of(r),
        kind: store_kind(store_name_of(r)),
        primary_key: key_text(r.key),
        id: None,
        conversation: None,
        sender: None,
        time: None,
        message_type: None,
        name: None,
        text: None,
        payload: base_payload_of(r.value),
        seq: r.seq,
        deleted: r.deleted,
    }
}

/// A conversation record: its own `id` (also its conversation) and its `name`.
pub open spec fn conversation_fields(w: WireRecordView, v: V8Value) -> WireRecordView {
    WireRecordView {
        id: field_text(v, "id"@),
        conversation: field_text(v, "id"@),
        name: field_text(v, "name"@),
        ..w
    }
}

/// An event record: `id`, `conversation`, sender (`from`, else `sender`), `time`,
/// `type`, and the body: a cleartext body when present, else the Proteus payload
/// when the body is opaque.
pub open spec fn event_fields(w: WireRecordView, v: V8Value) -> WireRecordView {
    WireRecordView {
        id: field_text(v, "id"@),
        conversation: field_text(v, "conversation"@),
        sender: first_field_text(v, "from"@, "sender"@),
        time: field_text(v, "time"@),
        message_type: field_text(v, "type"@),
        text: match message_text_of(v) {
            Some(t) => Some(t),
            None => w.text,
        },
        payload: if message_text_of(v) is Some {
            PayloadView::Cleartext
        } else if is_encrypted_payload_of(v) {
            proteus_payload()
        } else {
            w.payload
        },
        ..w
    }
}

/// A user record: its `id` and display `name`.
pub open spec fn user_fields(w: WireRecordView, v: V8Value) -> WireRecordView {
    WireRecordView { id: field_text(v, "id"@), name: field_text(v, "name"@), ..w }
}

/// A client record: its `id` and a device label (`model`, else `class`, else `label`).
pub open spec fn client_fields(w: WireRecordView, v: V8Value) -> WireRecordView {
    WireRecordView {
        id: field_text(v, "id"@),
        name: first_of_three_text(v, "model"@, "class"@, "label"@),
        ..w
    }
}

/// The interpretation of one decoded record.
pub open spec fn interpreted(r: IndexedDbRecord) -> WireRecordView {
    let base = base_record_of(r);
    match r.value {
        RecordValue::V8(v) => match base.kind {
            WireRecordKind::Conversation => conversation_fields(base, v),
            WireRecordKind::Event => event_fields(base, v),
            WireRecordKind::User => user_fields(base, v),
            WireRecordKind::Client => client_fields(base, v),
            WireRecordKind::Unknown => base,
        },
        RecordValue::Undecoded { .. } => base,
    }
}

/// The decode state of a record value (see [`base_payload_of`]).
pub fn base_payload(value: &RecordValue) -> (payload: PayloadState)
    ensures
        payload@ == base_payload_of(*value),
{
    match value {
        RecordValue::V8(_) => PayloadState::Cleartext,
        RecordValue::Undecoded { error, .. } => PayloadState::Undecoded { error: error.clone() },
    }
}

/// The text of the first of the properties `a`, `b` that is present.
fn first_text_field(v: &V8Value, a: &str, b: &str) -> (text: Option<String>)
    ensures
        opt_text(text) == first_field_text(*v, a@, b@),
{
    match obj_field(v, a) {
        Some(x) => as_text(x),
        None => text_field(v, b),
    }
}

/// Extract conversation metadata: the conversation id (its own `id`) and the
/// display `name`.
fn fill_conversation(wr: &mut WireRecord, v: &V8Value)
    ensures
        final(wr)@ == conversation_fields(old(wr)@, *v),
{
    wr.id = text_field(v, "id");
    wr.conversation = text_field(v, "id");
    wr.name = text_field(v, "name");
}

/// Extract a cleartext message body from an event value (see [`message_text_of`]).
pub fn message_text(v: &V8Value) -> (text: Option<String>)
    ensures
        opt_text(text) == message_text_of(*v),
{
    if let Some(data) = obj_field(v, "data") {
        if let Some(t) = first_text_field(data, "content", "text") {
            return Some(t);
        }
    }
    first_text_field(v, "content", "text")
}

/// Whether the marker property `m` sits on `v` or on its `data` object.
fn has_cipher_marker(v: &V8Value, data: Option<&V8Value>, m: &str) -> (found: bool)
    requires
        match data {
            Some(d) => object_field(*v, "data"@) == Some(*d),
            None => object_field(*v, "data"@) is None,
        },
    ensures
        found == has_marker(*v, m@),
{
    if obj_field(v, m).is_some() {
        return true;
    }
    match data {
        Some(d) => obj_field(d, m).is_some(),
        None => false,
    }
}

/// Whether an event value carries an opaque/ciphered body with no cleartext
/// (see [`is_encrypted_payload_of`]).
pub fn is_encrypted_payload(v: &V8Value) -> (encrypted: bool)
    ensures
        encrypted == is_encrypted_payload_of(*v),
{
    if let V8Value::ArrayBuffer(_) = v {
        return true;
    }
    let data = obj_field(v, "data");
    if let Some(V8Value::ArrayBuffer(_)) = data {
        return true;
    }
    has_cipher_marker(v, data, "cipher_text") || has_cipher_marker(v, data, "cipherText")
        || has_cipher_marker(v, data, "otr") || has_cipher_marker(v, data, "encrypted")
}

/// Extract event metadata (conversation, sender, time, type) and, when the body
/// is in cleartext, the message text; an opaque body is marked as Proteus
/// encrypted and unrecoverable rather than given fabricated plaintext.
pub fn fill_event(wr: &mut WireRecord, v: &V8Value)
    ensures
        final(wr)@ == event_fields(old(wr)@, *v),
{
    wr.id = text_field(v, "id");
    wr.conversation = text_field(v, "conversation");
    wr.sender = first_text_field(v, "from", "sender");
    wr.time = text_field(v, "time");
    wr.message_type = text_field(v, "type");

    if let Some(text) = message_text(v) {
        wr.text = Some(text);
        wr.payload = PayloadState::Cleartext;
    } else if is_encrypted_payload(v) {
        wr.payload = PayloadState::Encrypted { scheme: PROTEUS_SCHEME, reason: PROTEUS_REASON };
    }
}

/// Extract user metadata: the user `id` and the display `name`.
fn fill_user(wr: &mut WireRecord, v: &V8Value)
    ensures
        final(wr)@ == user_fields(old(wr)@, *v),
{
    wr.id = text_field(v, "id");
    wr.name = text_field(v, "name");
}

/// Extract client/device metadata: the client `id` and a device label (the
/// `model`, falling back to the `class` or `label`).
fn fill_client(wr: &mut WireRecord, v: &V8Value)
    ensures
        final(wr)@ == client_fields(old(wr)@, *v),
{
    wr.id = text_field(v, "id");
    wr.name = match obj_field(v, "model") {
        Some(x) => as_text(x),
        None => first_text_field(v, "class", "label"),
    };
}

/// Interpret one decoded IndexedDB record into a [`WireRecord`].
///
/// Builds the base record (store, role, primary key, seq, tombstone flag,
/// decode-state payload) then dispatches to the per-store field extractor.
pub fn interpret_one(store: &str, r: &IndexedDbRecord) -> (wr: WireRecord)
    requires
        store@ == store_name_of(*r),
    ensures
        wr@ == interpreted(*r),
{
    let kind = WireRecordKind::from_store_name(store);
    let mut wr = WireRecord {
        store: String::from_str(store),
        kind,
        primary_key: render_key(&r.key),
        id: None,
        conversation: None,
        sender: None,
        time: None,
        message_type: None,
        name: None,
        text: None,
        payload: base_payload(&r.value),
        seq: r.seq,
        deleted: r.deleted,
    };
    assert(wr@ == base_record_of(*r));

    if let RecordValue::V8(v) = &r.value {
        match kind {
            WireRecordKind::Conversation => fill_conversation(&mut wr, v),
            WireRecordKind::Event => fill_event(&mut wr, v),
            WireRecordKind::User => fill_user(&mut wr, v),
            WireRecordKind::Client => fill_client(&mut wr, v),
            WireRecordKind::Unknown => {},
        }
    }
    wr
}

/// A per-object-store roll-up.
#[non_exhaustive]
#[derive(Debug, PartialEq, Eq)]
pub struct ObjectStoreSummary {
    /// The Dexie object-store name.
    pub name: String,
    /// Its Wire role.
    pub kind: WireRecordKind,
    /// How many records it holds (live and tombstoned).
    pub records: usize,
    /// How many of those records carry an encrypted, unrecoverable payload.
    pub encrypted_payloads: usize,
    /// How many are deletion tombstones.
    pub deleted: usize,
}

/// The abstract content of an [`ObjectStoreSummary`].
pub struct SummaryView {
    pub name: Seq<char>,
    pub kind: WireRecordKind,
    pub records: nat,
    pub encrypted_payloads: nat,
    pub deleted: nat,
}

impl View for ObjectStoreSummary {
    type V = SummaryView;

    open spec fn view(&self) -> SummaryView {
        SummaryView {
            name: self.name@,
            kind: self.kind,
            records: self.records as nat,
            encrypted_payloads: self.encrypted_payloads as nat,
            deleted: self.deleted as nat,
        }
    }
}

/// The distinct non-empty object-store names of `recs`, in order of first appearance.
pub open spec fn store_names(recs: Seq<WireRecordView>) -> Seq<Seq<char>>
    decreases recs.len(),
{
    if recs.len() == 0 {
        Seq::empty()
    } else {
        let names = store_names(recs.drop_last());
        let s = recs.last().store;
        if s.len() == 0 || names.contains(s) {
            names
        } else {
            names.push(s)
        }
    }
}

/// How many of `recs` come from the store `name`.
pub open spec fn count_in_store(recs: Seq<WireRecordView>, name: Seq<char>) -> nat
    decreases recs.len(),
{
    if recs.len() == 0 {
        0
    } else {
        count_in_store(recs.drop_last(), name) + if recs.last().store == name { 1nat } else { 0nat }
    }
}

/// How many of `recs` come from the store `name` with an encrypted payload.
pub open spec fn count_encrypted_in_store(recs: Seq<WireRecordView>, name: Seq<char>) -> nat
    decreases recs.len(),
{
    if recs.len() == 0 {
        0
    } else {
        count_encrypted_in_store(recs.drop_last(), name) + if recs.last().store == name
            && recs.last().payload is Encrypted { 1nat } else { 0nat }
    }
}

/// How many of `recs` come from the store `name` and are tombstones.
pub open spec fn count_deleted_in_store(recs: Seq<WireRecordView>, name: Seq<char>) -> nat
    decreases recs.len(),
{
    if recs.len() == 0 {
        0
    } else {
        count_deleted_in_store(recs.drop_last(), name) + if recs.last().store == name
            && recs.last().deleted { 1nat } else { 0nat }
    }
}

/// The roll-up of the store `name` over `recs`.
pub open spec fn summary_of(recs: Seq<WireRecordView>, name: Seq<char>) -> SummaryView {
    SummaryView {
        name,
        kind: store_kind(name),
        records: count_in_store(recs, name),
        encrypted_payloads: count_encrypted_in_store(recs, name),
        deleted: count_deleted_in_store(recs, name),
    }
}

/// One roll-up per distinct non-empty store name of `recs`, in order of first appearance.
pub open spec fn summaries_of(recs: Seq<WireRecordView>) -> Seq<SummaryView> {
    store_names(recs).map_values(|n: Seq<char>| summary_of(recs, n))
}

/// The interpreted Wire store: a per-object-store summary plus every record.
#[non_exhaustive]
#[derive(Debug, PartialEq)]
pub struct WireStore {
    /// One summary per named object store found.
    pub object_stores: Vec<ObjectStoreSummary>,
    /// Every interpreted record, in source order.
    pub records: Vec<WireRecord>,
}

/// The abstract records of a store.
pub open spec fn record_views(records: Seq<WireRecord>) -> Seq<WireRecordView> {
    records.map_values(|r: WireRecord| r@)
}

/// The abstract roll-ups of a store.
pub open spec fn summary_views(summaries: Seq<ObjectStoreSummary>) -> Seq<SummaryView> {
    summaries.map_values(|s: ObjectStoreSummary| s@)
}

/// Every name in [`store_names`] is non-empty and carried by some record;
/// the names are distinct.
pub proof fn lemma_store_names_shape(recs: Seq<WireRecordView>)
    ensures
        forall|k: int| 0 <= k < store_names(recs).len() ==> #[trigger] store_names(recs)[k].len() > 0,
        forall|k: int, l: int| 0 <= k < l < store_names(recs).len() ==> store_names(recs)[k] != store_names(recs)[l],
        forall|n: Seq<char>| store_names(recs).contains(n) ==> count_in_store(recs, n) > 0,
    decreases recs.len(),
{
    if recs.len() > 0 {
        let init = recs.drop_last();
        lemma_store_names_shape(init);
        let names = store_names(init);
        let s = recs.last().store;
        assert forall|n: Seq<char>| store_names(recs).contains(n) implies count_in_store(recs, n) > 0 by {
            if names.contains(n) {
            } else {
                let k = choose|k: int| 0 <= k < store_names(recs).len() && store_names(recs)[k] == n;
                assert(k == names.len());
            }
        }
    }
}

/// A non-empty name that no record carries is not among [`store_names`], and a
/// store that no record carries has every count at zero.
pub proof fn lemma_absent_store_counts(recs: Seq<WireRecordView>, name: Seq<char>)
    requires
        name.len() > 0,
        !store_names(recs).contains(name),
    ensures
        count_in_store(recs, name) == 0,
        count_encrypted_in_store(recs, name) == 0,
        count_deleted_in_store(recs, name) == 0,
    decreases recs.len(),
{
    if recs.len() > 0 {
        let init = recs.drop_last();
        let names = store_names(init);
        if names.contains(name) {
            assert(store_names(recs).contains(name)) by {
                let k = choose|k: int| 0 <= k < names.len() && names[k] == name;
                if recs.last().store.len() == 0 || names.contains(recs.last().store) {
                } else {
                    assert(store_names(recs)[k] == name);
                }
            }
        }
        if recs.last().store == name {
            assert(store_names(recs).contains(name)) by {
                if names.contains(name) {
                } else {
                    assert(store_names(recs)[names.len() as int] == name);
                }
            }
        }
        lemma_absent_store_counts(init, name);
    }
}

/// Every count is bounded by the number of records.
pub proof fn lemma_counts_bounded(recs: Seq<WireRecordView>, name: Seq<char>)
    ensures
        count_in_store(recs, name) <= recs.len(),
        count_encrypted_in_store(recs, name) <= count_in_store(recs, name),
        count_deleted_in_store(recs, name) <= count_in_store(recs, name),
    decreases recs.len(),
{
    if recs.len() > 0 {
        lemma_counts_bounded(recs.drop_last(), name);
    }
}

/// Add one interpreted record to the roll-ups of the records before it.
fn tally(summaries: &mut Vec<ObjectStoreSummary>, store: &str, wr: &WireRecord, Ghost(before): Ghost<Seq<WireRecordView>>)
    requires
        summary_views(old(summaries)@) == summaries_of(before),
        store@ == wr@.store,
        wr@.kind == store_kind(wr@.store),
        before.len() < usize::MAX,
    ensures
        summary_views(final(summaries)@) == summaries_of(before.push(wr@)),
{
    let ghost after = before.push(wr@);
    let ghost names = store_names(before);
    proof {
        assert(after.drop_last() =~= before);
        lemma_store_names_shape(before);
        assert(summary_views(summaries@).len() == summaries@.len());
        assert(summaries_of(before).len() == names.len());
        assert forall|k: int| 0 <= k < names.len() implies #[trigger] summaries@[k]@ == summary_of(before, names[k]) by {
            assert(summary_views(summaries@)[k] == summaries@[k]@);
            assert(summaries_of(before)[k] == summary_of(before, names[k]));
        }
    }
    if store.is_empty() {
        proof {
            assert(store_names(after) == names);
            assert forall|k: int| 0 <= k < names.len() implies #[trigger] summaries_of(after)[k] == summaries_of(before)[k] by {
                assert(names[k].len() > 0);
                assert(names[k] != wr@.store);
            }
            assert(summaries_of(after) =~= summaries_of(before));
        }
        return;
    }
    let enc = wr.is_encrypted();
    let del = wr.deleted;
    let mut j: usize = 0;
    while j < summaries.len()
        invariant
            j <= summaries@.len(),
            summaries@ == old(summaries)@,
            summary_views(summaries@) == summaries_of(before),
            summaries@.len() == names.len(),
            names == store_names(before),
            before.len() < usize::MAX,
            after == before.push(wr@),
            after.drop_last() == before,
            store@ == wr@.store,
            wr@.kind == store_kind(wr@.store),
            enc == (wr@.payload is Encrypted),
            del == wr@.deleted,
            forall|k: int| 0 <= k < names.len() ==> #[trigger] summaries@[k]@ == summary_of(before, names[k]),
            forall|k: int| 0 <= k < j ==> summaries@[k]@.name != store@,
        decreases summaries@.len() - j,
    {
        if str_eq(summaries[j].name.as_str(), store) {
            let ghost s = store@;
            proof {
                assert(summaries@[j as int]@ == summary_of(before, names[j as int]));
                assert(names[j as int] == s);
                assert(names.contains(s));
                lemma_counts_bounded(before, s);
            }
            let current = &summaries[j];
            let updated = ObjectStoreSummary {
                name: current.name.clone(),
                kind: current.kind,
                records: current.records + 1,
                encrypted_payloads: if enc { current.encrypted_payloads + 1 } else { current.encrypted_payloads },
                deleted: if del { current.deleted + 1 } else { current.deleted },
            };
            summaries.set(j, updated);
            proof {
                lemma_store_names_shape(before);
                assert(store_names(after) == names);
                assert(summaries_of(after).len() == names.len());
                assert(summary_views(summaries@).len() == names.len());
                assert forall|k: int| 0 <= k < names.len() implies #[trigger] summaries_of(after)[k] == summary_views(summaries@)[k] by {
                    assert(summaries_of(after)[k] == summary_of(after, names[k]));
                    assert(summary_views(summaries@)[k] == summaries@[k]@);
                    if k != j {
                        assert(names[k] != names[j as int]);
                        assert(summaries@[k] == old(summaries)@[k]);
                    }
                }
                assert(summaries_of(after) =~= summary_views(summaries@));
            }
            return;
        }
        j = j + 1;
    }
    proof {
        assert(!names.contains(store@)) by {
            if names.contains(store@) {
                let k = choose|k: int| 0 <= k < names.len() && names[k] == store@;
                assert(summaries@[k]@ == summary_of(before, names[k]));
            }
        }
        lemma_absent_store_counts(before, store@);
    }
    let fresh = ObjectStoreSummary {
        name: String::from_str(store),
        kind: wr.kind,
        records: 1,
        encrypted_payloads: if enc { 1 } else { 0 },
        deleted: if del { 1 } else { 0 },
    };
    summaries.push(fresh);
    proof {
        assert(store_names(after) == names.push(store@));
        assert(summaries_of(after).len() == names.len() + 1);
        assert(summary_views(summaries@).len() == names.len() + 1);
        assert forall|k: int| 0 <= k < names.len() + 1 implies #[trigger] summaries_of(after)[k] == summary_views(summaries@)[k] by {
            assert(summaries_of(after)[k] == summary_of(after, store_names(after)[k]));
            assert(summary_views(summaries@)[k] == summaries@[k]@);
            if k < names.len() {
                assert(names[k] != store@);
                assert(summaries@[k]@ == summary_of(before, names[k]));
            }
        }
        assert(summaries_of(after) =~= summary_views(summaries@));
    }
}

/// Interpret decoded IndexedDB records into a typed [`WireStore`].
///
/// Every record is passed through as a [`WireRecord`] (store, role, primary key,
/// sequence, tombstone flag and decode-state payload) with its per-store fields
/// extracted, in source order; a summary per named object store is rolled up
/// alongside, in order of first appearance.
pub fn interpret_records(records: &[IndexedDbRecord]) -> (store: WireStore)
    ensures
        record_views(store.records@) == records@.map_values(|r: IndexedDbRecord| interpreted(r)),
        summary_views(store.object_stores@) == summaries_of(record_views(store.records@)),
{
    let mut out: Vec<WireRecord> = Vec::new();
    let mut summaries: Vec<ObjectStoreSummary> = Vec::new();
    let mut i: usize = 0;
    proof {
        assert(record_views(out@) =~= Seq::<WireRecordView>::empty());
        assert(summaries_of(record_views(out@)) =~= Seq::<SummaryView>::empty());
    }
    while i < records.len()
        invariant
            i <= records@.len(),
            out@.len() == i,
            record_views(out@) == records@.take(i as int).map_values(|r: IndexedDbRecord| interpreted(r)),
            summary_views(summaries@) == summaries_of(record_views(out@)),
        decreases records@.len() - i,
    {
        let r = &records[i];
        let store: &str = match &r.object_store {
            Some(s) => s.as_str(),
            None => {
                let empty = "";
                proof {
                    reveal_strlit("");
                    assert(empty@ =~= Seq::<char>::empty());
                }
                empty
            },
        };
        let wr = interpret_one(store, r);
        tally(&mut summaries, store, &wr, Ghost(record_views(out@)));
        let ghost before = out@;
        out.push(wr);
        proof {
            assert(record_views(out@) =~= record_views(before).push(out@[i as int]@));
            assert(records@.take(i + 1) =~= records@.take(i as int).push(records@[i as int]));
            assert(record_views(out@) =~= records@.take(i + 1).map_values(|r: IndexedDbRecord| interpreted(r)));
        }
        i = i + 1;
    }
    assert(records@.take(records@.len() as int) =~= records@);
    WireStore { object_stores: summaries, records: out }
}

/// The records of `recs` that come from the object store `name`, in order.
pub open spec fn records_in_store(recs: Seq<WireRecord>, name: Seq<char>) -> Seq<WireRecord> {
    recs.filter(|r: WireRecord| r.store@ == name)
}

/// The event records of `recs`, in order.
pub open spec fn event_records(recs: Seq<WireRecord>) -> Seq<WireRecord> {
    recs.filter(|r: WireRecord| r.kind == WireRecordKind::Event)
}

/// The event records of `recs` whose payload is encrypted, in order.
pub open spec fn encrypted_event_records(recs: Seq<WireRecord>) -> Seq<WireRecord> {
    event_records(recs).filter(|r: WireRecord| r.payload@ is Encrypted)
}

/// The records a list of references points at.
pub open spec fn pointed(refs: Seq<&WireRecord>) -> Seq<WireRecord> {
    refs.map_values(|r: &WireRecord| *r)
}

impl WireStore {
    /// Records belonging to `store`, in source order.
    pub fn records_in<'a>(&'a self, store: &str) -> (found: Vec<&'a WireRecord>)
        ensures
            pointed(found@) == records_in_store(self.records@, store@),
    {
        let mut found: Vec<&'a WireRecord> = Vec::new();
        let mut i: usize = 0;
        while i < self.records.len()
            invariant
                i <= self.records@.len(),
                pointed(found@) == records_in_store(self.records@.take(i as int), store@),
            decreases self.records@.len() - i,
        {
            let r = &self.records[i];
            let ghost before = found@;
            let keep = str_eq(r.store.as_str(), store);
            if keep {
                found.push(r);
            }
            proof {
                let t = self.records@.take(i + 1);
                assert(t.drop_last() =~= self.records@.take(i as int));
                reveal_with_fuel(Seq::filter, 1);
                if keep {
                    assert(pointed(found@) =~= pointed(before).push(*r));
                } else {
                    assert(pointed(found@) =~= pointed(before));
                }
            }
            i = i + 1;
        }
        assert(self.records@.take(self.records@.len() as int) =~= self.records@);
        found
    }

    /// All message/system event records, in source order.
    pub fn events(&self) -> (found: Vec<&WireRecord>)
        ensures
            pointed(found@) == event_records(self.records@),
    {
        let mut found: Vec<&WireRecord> = Vec::new();
        let mut i: usize = 0;
        while i < self.records.len()
            invariant
                i <= self.records@.len(),
                pointed(found@) == event_records(self.records@.take(i as int)),
            decreases self.records@.len() - i,
        {
            let r = &self.records[i];
            let ghost before = found@;
            let keep = r.kind == WireRecordKind::Event;
            if keep {
                found.push(r);
            }
            proof {
                let t = self.records@.take(i + 1);
                assert(t.drop_last() =~= self.records@.take(i as int));
                reveal_with_fuel(Seq::filter, 1);
                if keep {
                    assert(pointed(found@) =~= pointed(before).push(*r));
                } else {
                    assert(pointed(found@) =~= pointed(before));
                }
            }
            i = i + 1;
        }
        assert(self.records@.take(self.records@.len() as int) =~= self.records@);
        found
    }

    /// Event records whose content is client-side encrypted (unrecoverable), in
    /// source order.
    pub fn encrypted_events(&self) -> (found: Vec<&WireRecord>)
        ensures
            pointed(found@) == encrypted_event_records(self.records@),
    {
        let events = self.events();
        let mut found: Vec<&WireRecord> = Vec::new();
        let mut i: usize = 0;
        while i < events.len()
            invariant
                i <= events@.len(),
                pointed(events@) == event_records(self.records@),
                pointed(found@) == pointed(events@.take(i as int)).filter(|r: WireRecord| r.payload@ is Encrypted),
            decreases events@.len() - i,
        {
            let r = events[i];
            let ghost before = found@;
            let keep = r.is_encrypted();
            if keep {
                found.push(r);
            }
            proof {
                let t = pointed(events@.take(i + 1));
                assert(t.drop_last() =~= pointed(events@.take(i as int)));
                assert(t.last() == *r);
                reveal_with_fuel(Seq::filter, 1);
                if keep {
                    assert(pointed(found@) =~= pointed(before).push(*r));
                } else {
                    assert(pointed(found@) =~= pointed(before));
                }
            }
            i = i + 1;
        }
        assert(events@.take(events@.len() as int) =~= events@);
        found
    }
}

impl Clone for WireRecord {
    fn clone(&self) -> (copy: Self)
        ensures
            copy == *self,
    {
        WireRecord {
            store: self.store.clone(),
            kind: self.kind,
            primary_key: self.primary_key.clone(),
            id: self.id.clone(),
            conversation: self.conversation.clone(),
            sender: self.sender.clone(),
            time: self.time.clone(),
            message_type: self.message_type.clone(),
            name: self.name.clone(),
            text: self.text.clone(),
            payload: self.payload.clone(),
            seq: self.seq,
            deleted: self.deleted,
        }
    }
}

impl Clone for ObjectStoreSummary {
    fn clone(&self) -> (copy: Self)
        ensures
            copy == *self,
    {
        ObjectStoreSummary {
            name: self.name.clone(),
            kind: self.kind,
            records: self.records,
            encrypted_payloads: self.encrypted_payloads,
            deleted: self.deleted,
        }
    }
}

impl Clone for WireStore {
    fn clone(&self) -> (copy: Self)
        ensures
            copy.object_stores@ == self.object_stores@,
            copy.records@ == self.records@,
    {
        let object_stores = self.object_stores.clone();
        let records = self.records.clone();
        proof {
            assert forall|i: int| 0 <= i < records@.len() implies records@[i] == self.records@[i] by {
                assert(cloned::<WireRecord>(self.records[i], records[i]));
            }
            assert forall|i: int| 0 <= i < object_stores@.len() implies object_stores@[i] == self.object_stores@[i] by {
                assert(cloned::<ObjectStoreSummary>(self.object_stores[i], object_stores[i]));
            }
            assert(object_stores@ =~= self.object_stores@);
            assert(records@ =~= self.records@);
        }
        WireStore { object_stores, records }
    }
}

impl Default for WireStore {
    fn default() -> (empty: Self)
        ensures
            empty.object_stores@ == Seq::<ObjectStoreSummary>::empty(),
            empty.records@ == Seq::<WireRecord>::empty(),
    {
        WireStore { object_stores: Vec::new(), records: Vec::new() }
    }
}

} // verus!
