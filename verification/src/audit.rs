//! Forensic anomaly analysis of an interpreted Wire store.
//!
//! Each record is classified into the observations it warrants, and every
//! observation is reported as a canonical `forensicnomicon` finding:
//!
//! | Code | Severity | Category | Meaning |
//! |---|---|---|---|
//! | `WIRE-MESSAGE-ENCRYPTED-UNRECOVERABLE` | Info | Provenance | a message body is client-side (Proteus) encrypted; the key is not in the OS Safe Storage, so plaintext is unrecoverable |
//! | `WIRE-MESSAGE-CLEARTEXT` | Low | Residue | a cleartext message body was recovered from the store |
//! | `WIRE-RECORD-DELETED-RESIDUAL` | Medium | Residue | a tombstoned (deleted) Wire record survives in the LevelDB and was recovered |
//! | `WIRE-OTR-KEY-PRESENT` | High | Threat | the Wire `otr_key` (attachment key) is present in the IndexedDB: recoverable key material |
//!
//! Findings are observations, never legal conclusions.

use vstd::prelude::*;
use crate::idb::opt_text;
use crate::record::{PayloadState, PayloadView, WireRecord, WireRecordView, WireStore, record_views};
use crate::text::{ascii_lower, contains_run, contains_ascii_lowercase};
use crate::report::{build_finding, report_finding};
use forensicnomicon::report::Finding;

verus! {

/// Analyzer name, recorded on every finding's source.
pub const ANALYZER: &'static str = "wire-desktop-forensic";

/// The scope recorded on every finding's source.
pub const SCOPE: &'static str = "IndexedDB";

/// The analyzer version recorded on every finding's source. It is this
/// package's version and has to be kept equal to `version` under `[package]`
/// in Cargo.toml whenever that is bumped.
pub const ANALYZER_VERSION: &'static str = "0.1.0";

/// The documented Wire attachment-decryption key name. Its presence in the
/// IndexedDB is recoverable key material.
pub const OTR_KEY_NAME: &'static str = "otr_key";

/// The severity grades this analyzer assigns (`Info` < `Low` < `Medium` < `High`).
#[derive(Debug, Clone, Copy, PartialEq, Eq, Structural)]
pub enum Severity {
    /// Informational: provenance or context, not suspicious on its own.
    Info,
    /// Low: minor irregularity with a common benign explanation.
    Low,
    /// Medium: notable irregularity worth examiner attention.
    Medium,
    /// High: strong indicator worth immediate attention.
    High,
}

/// The forensic lenses this analyzer reports under.
#[derive(Debug, Clone, Copy, PartialEq, Eq, Structural)]
pub enum Category {
    /// Residue / recoverability (deleted entries, recovered content).
    Residue,
    /// Provenance / attribution.
    Provenance,
    /// Threat: exposed key material and similar.
    Threat,
}

/// A Wire IndexedDB observation, with the offending evidence attached.
#[derive(Debug, PartialEq, Eq)]
pub enum AnomalyKind {
    /// A message body is client-side (Proteus) encrypted and its key is not
    /// recoverable from this artifact.
    EncryptedMessage {
        /// The conversation the message belongs to.
        conversation: Option<String>,
        /// The message time, if known.
        time: Option<String>,
    },
    /// A cleartext message body was recovered from the store.
    CleartextMessage {
        /// The conversation the message belongs to.
        conversation: Option<String>,
        /// The sender, if known.
        sender: Option<String>,
        /// The message time, if known.
        time: Option<String>,
    },
    /// A deletion tombstone survived in the LevelDB and was recovered.
    DeletedRecord {
        /// The object store it came from.
        store: String,
        /// Its primary key.
        primary_key: String,
    },
    /// The Wire `otr_key` (attachment key) is present in the IndexedDB.
    OtrKeyPresent {
        /// The object store it came from.
        store: String,
        /// Its primary key.
        primary_key: String,
    },
}

/// The abstract content of an [`AnomalyKind`].
pub enum AnomalyView {
    EncryptedMessage { conversation: Option<Seq<char>>, time: Option<Seq<char>> },
    CleartextMessage { conversation: Option<Seq<char>>, sender: Option<Seq<char>>, time: Option<Seq<char>> },
    DeletedRecord { store: Seq<char>, primary_key: Seq<char> },
    OtrKeyPresent { store: Seq<char>, primary_key: Seq<char> },
}

impl View for AnomalyKind {
    type V = AnomalyView;

    open spec fn view(&self) -> AnomalyView {
        match self {
            AnomalyKind::EncryptedMessage { conversation, time } => AnomalyView::EncryptedMessage {
                conversation: opt_text(*conversation),
                time: opt_text(*time),
            },
            AnomalyKind::CleartextMessage { conversation, sender, time } => AnomalyView::CleartextMessage {
                conversation: opt_text(*conversation),
                sender: opt_text(*sender),
                time: opt_text(*time),
            },
            AnomalyKind::DeletedRecord { store, primary_key } => AnomalyView::DeletedRecord {
                store: store@,
                primary_key: primary_key@,
            },
            AnomalyKind::OtrKeyPresent { store, primary_key } => AnomalyView::OtrKeyPresent {
                store: store@,
                primary_key: primary_key@,
            },
        }
    }
}

/// One evidence row backing a finding: a named field, its observed value, and
/// the record key it was found at, when it is anchored to one.
#[derive(Debug, PartialEq, Eq)]
pub struct EvidenceRow {
    /// Field / observation name.
    pub field: String,
    /// Observed value, rendered as text.
    pub value: String,
    /// The record key the evidence sits at, if any.
    pub key: Option<String>,
}

/// The abstract content of an [`EvidenceRow`].
pub struct EvidenceView {
    pub field: Seq<char>,
    pub value: Seq<char>,
    pub key: Option<Seq<char>>,
}

impl View for EvidenceRow {
    type V = EvidenceView;

    open spec fn view(&self) -> EvidenceView {
        EvidenceView { field: self.field@, value: self.value@, key: opt_text(self.key) }
    }
}

/// The stable machine code of an observation.
pub open spec fn anomaly_code(a: AnomalyView) -> Seq<char> {
    match a {
        AnomalyView::EncryptedMessage { .. } => "WIRE-MESSAGE-ENCRYPTED-UNRECOVERABLE"@,
        AnomalyView::CleartextMessage { .. } => "WIRE-MESSAGE-CLEARTEXT"@,
        AnomalyView::DeletedRecord { .. } => "WIRE-RECORD-DELETED-RESIDUAL"@,
        AnomalyView::OtrKeyPresent { .. } => "WIRE-OTR-KEY-PRESENT"@,
    }
}

/// The severity of an observation.
pub open spec fn anomaly_severity(a: AnomalyView) -> Severity {
    match a {
        AnomalyView::EncryptedMessage { .. } => Severity::Info,
        AnomalyView::CleartextMessage { .. } => Severity::Low,
        AnomalyView::DeletedRecord { .. } => Severity::Medium,
        AnomalyView::OtrKeyPresent { .. } => Severity::High,
    }
}

/// The category of an observation.
pub open spec fn anomaly_category(a: AnomalyView) -> Category {
    match a {
        AnomalyView::EncryptedMessage { .. } => Category::Provenance,
        AnomalyView::CleartextMessage { .. } => Category::Residue,
        AnomalyView::DeletedRecord { .. } => Category::Residue,
        AnomalyView::OtrKeyPresent { .. } => Category::Threat,
    }
}

/// A conversation id, or `<unknown>` when absent.
pub open spec fn or_unknown(o: Option<Seq<char>>) -> Seq<char> {
    match o {
        Some(c) => c,
        None => "<unknown>"@,
    }
}

/// The human-readable, consistent-with note of an observation.
pub open spec fn anomaly_note(a: AnomalyView) -> Seq<char> {
    match a {
        AnomalyView::EncryptedMessage { conversation, .. } => "a message in conversation "@ + or_unknown(conversation)
            + " is client-side (Proteus) encrypted; Wire's message key is not held in the Chromium OS Safe Storage, so the plaintext is unrecoverable from this artifact"@,
        AnomalyView::CleartextMessage { conversation, .. } => "a cleartext message body was recovered from conversation "@
            + or_unknown(conversation) + " in the Wire IndexedDB"@,
        AnomalyView::DeletedRecord { store, primary_key } => "a deleted Wire record ("@ + store + "/"@ + primary_key
            + ") survives as a LevelDB tombstone and was recovered \u{2014} consistent with residual data after deletion"@,
        AnomalyView::OtrKeyPresent { store, primary_key } => "the Wire otr_key attachment key is present in the IndexedDB ("@
            + store + "/"@ + primary_key
            + ") \u{2014} consistent with recoverable attachment-decryption key material"@,
    }
}

/// The MITRE ATT&CK techniques an observation is consistent with.
pub open spec fn anomaly_mitre(a: AnomalyView) -> Seq<Seq<char>> {
    match a {
        AnomalyView::OtrKeyPresent { .. } => seq!["T1552"@],
        _ => Seq::empty(),
    }
}

/// The evidence rows of an observation: the conversation and time of a message
/// (each when known), or the `store/key` of a record anchored at its key.
pub open spec fn anomaly_evidence(a: AnomalyView) -> Seq<EvidenceView> {
    match a {
        AnomalyView::EncryptedMessage { conversation, time } => message_evidence(conversation, time),
        AnomalyView::CleartextMessage { conversation, time, .. } => message_evidence(conversation, time),
        AnomalyView::DeletedRecord { store, primary_key } => seq![record_evidence(store, primary_key)],
        AnomalyView::OtrKeyPresent { store, primary_key } => seq![record_evidence(store, primary_key)],
    }
}

/// The evidence rows of a message: its conversation and time, each when known.
pub open spec fn message_evidence(conversation: Option<Seq<char>>, time: Option<Seq<char>>) -> Seq<EvidenceView> {
    let c = match conversation {
        Some(c) => seq![EvidenceView { field: "conversation"@, value: c, key: None }],
        None => Seq::empty(),
    };
    let t = match time {
        Some(t) => seq![EvidenceView { field: "time"@, value: t, key: None }],
        None => Seq::empty(),
    };
    c + t
}

/// The evidence row of a record: `store/key`, anchored at the key.
pub open spec fn record_evidence(store: Seq<char>, primary_key: Seq<char>) -> EvidenceView {
    EvidenceView { field: "record"@, value: store + "/"@ + primary_key, key: Some(primary_key) }
}

/// Append `o`, or `<unknown>` when it is absent, to `out`.
fn append_or_unknown(out: &mut String, o: &Option<String>)
    ensures
        final(out)@ == old(out)@ + or_unknown(opt_text(*o)),
{
    match o {
        Some(c) => out.append(c.as_str()),
        None => out.append("<unknown>"),
    }
}

impl AnomalyKind {
    /// Stable, scheme-prefixed machine code (a published contract).
    pub fn code(&self) -> (code: &'static str)
        ensures
            code@ == anomaly_code(self@),
    {
        match self {
            AnomalyKind::EncryptedMessage { .. } => "WIRE-MESSAGE-ENCRYPTED-UNRECOVERABLE",
            AnomalyKind::CleartextMessage { .. } => "WIRE-MESSAGE-CLEARTEXT",
            AnomalyKind::DeletedRecord { .. } => "WIRE-RECORD-DELETED-RESIDUAL",
            AnomalyKind::OtrKeyPresent { .. } => "WIRE-OTR-KEY-PRESENT",
        }
    }

    /// Severity for the observation.
    pub fn severity(&self) -> (severity: Severity)
        ensures
            severity == anomaly_severity(self@),
    {
        match self {
            AnomalyKind::EncryptedMessage { .. } => Severity::Info,
            AnomalyKind::CleartextMessage { .. } => Severity::Low,
            AnomalyKind::DeletedRecord { .. } => Severity::Medium,
            AnomalyKind::OtrKeyPresent { .. } => Severity::High,
        }
    }

    /// Analytical lens for the observation.
    pub fn category(&self) -> (category: Category)
        ensures
            category == anomaly_category(self@),
    {
        match self {
            AnomalyKind::EncryptedMessage { .. } => Category::Provenance,
            AnomalyKind::CleartextMessage { .. } => Category::Residue,
            AnomalyKind::DeletedRecord { .. } => Category::Residue,
            AnomalyKind::OtrKeyPresent { .. } => Category::Threat,
        }
    }

    /// Human-readable, consistent-with note.
    pub fn note(&self) -> (note: String)
        ensures
            note@ == anomaly_note(self@),
    {
        match self {
            AnomalyKind::EncryptedMessage { conversation, .. } => {
                let mut out = String::from_str("a message in conversation ");
                append_or_unknown(&mut out, conversation);
                out.append(
                    " is client-side (Proteus) encrypted; Wire's message key is not held in the Chromium OS Safe Storage, so the plaintext is unrecoverable from this artifact",
                );
                out
            },
            AnomalyKind::CleartextMessage { conversation, .. } => {
                let mut out = String::from_str("a cleartext message body was recovered from conversation ");
                append_or_unknown(&mut out, conversation);
                out.append(" in the Wire IndexedDB");
                out
            },
            AnomalyKind::DeletedRecord { store, primary_key } => {
                let mut out = String::from_str("a deleted Wire record (");
                out.append(store.as_str());
                out.append("/");
                out.append(primary_key.as_str());
                out.append(
                    ") survives as a LevelDB tombstone and was recovered \u{2014} consistent with residual data after deletion",
                );
                out
            },
            AnomalyKind::OtrKeyPresent { store, primary_key } => {
                let mut out = String::from_str("the Wire otr_key attachment key is present in the IndexedDB (");
                out.append(store.as_str());
                out.append("/");
                out.append(primary_key.as_str());
                out.append(") \u{2014} consistent with recoverable attachment-decryption key material");
                out
            },
        }
    }

    /// MITRE ATT&CK techniques this observation is consistent with.
    pub fn mitre(&self) -> (techniques: &'static [&'static str])
        ensures
            techniques@.map_values(|t: &'static str| t@) == anomaly_mitre(self@),
    {
        match self {
            AnomalyKind::OtrKeyPresent { .. } => {
                let t: &'static [&'static str] = &["T1552"];
                assert(t@.map_values(|t: &'static str| t@) =~= seq!["T1552"@]);
                t
            },
            _ => {
                let t: &'static [&'static str] = &[];
                assert(t@.map_values(|t: &'static str| t@) =~= Seq::<Seq<char>>::empty());
                t
            },
        }
    }

    /// Evidence rows for the observation.
    pub fn evidence(&self) -> (rows: Vec<EvidenceRow>)
        ensures
            rows@.map_values(|r: EvidenceRow| r@) == anomaly_evidence(self@),
    {
        match self {
            AnomalyKind::EncryptedMessage { conversation, time } => message_rows(conversation, time),
            AnomalyKind::CleartextMessage { conversation, time, .. } => message_rows(conversation, time),
            AnomalyKind::DeletedRecord { store, primary_key } => record_rows(store, primary_key),
            AnomalyKind::OtrKeyPresent { store, primary_key } => record_rows(store, primary_key),
        }
    }
}

/// The evidence rows of a message (see [`message_evidence`]).
fn message_rows(conversation: &Option<String>, time: &Option<String>) -> (rows: Vec<EvidenceRow>)
    ensures
        rows@.map_values(|r: EvidenceRow| r@) == message_evidence(opt_text(*conversation), opt_text(*time)),
{
    let mut ev: Vec<EvidenceRow> = Vec::new();
    if let Some(c) = conversation {
        ev.push(EvidenceRow { field: String::from_str("conversation"), value: c.clone(), key: None });
    }
    if let Some(t) = time {
        ev.push(EvidenceRow { field: String::from_str("time"), value: t.clone(), key: None });
    }
    assert(ev@.map_values(|r: EvidenceRow| r@) =~= message_evidence(opt_text(*conversation), opt_text(*time)));
    ev
}

/// The evidence row of a record (see [`record_evidence`]).
fn record_rows(store: &String, primary_key: &String) -> (rows: Vec<EvidenceRow>)
    ensures
        rows@.map_values(|r: EvidenceRow| r@) == seq![record_evidence(store@, primary_key@)],
{
    let mut value = store.clone();
    value.append("/");
    value.append(primary_key.as_str());
    let mut ev: Vec<EvidenceRow> = Vec::new();
    ev.push(EvidenceRow { field: String::from_str("record"), value, key: Some(primary_key.clone()) });
    assert(ev@.map_values(|r: EvidenceRow| r@) =~= seq![record_evidence(store@, primary_key@)]);
    ev
}

/// `true` when a record's primary key, ASCII lower-cased, contains `otr_key`.
pub open spec fn names_otr_key(r: WireRecordView) -> bool {
    contains_run(r.primary_key.map_values(|c: char| ascii_lower(c)), OTR_KEY_NAME@)
}

/// The observations one record warrants, in this order: a recovered tombstone,
/// exposed `otr_key` material, then an encrypted body or a recovered cleartext body.
pub open spec fn observations_of(r: WireRecordView) -> Seq<AnomalyView> {
    let deleted = if r.deleted {
        seq![AnomalyView::DeletedRecord { store: r.store, primary_key: r.primary_key }]
    } else {
        Seq::empty()
    };
    let otr = if names_otr_key(r) {
        seq![AnomalyView::OtrKeyPresent { store: r.store, primary_key: r.primary_key }]
    } else {
        Seq::empty()
    };
    let body = match r.payload {
        PayloadView::Encrypted { .. } => seq![AnomalyView::EncryptedMessage { conversation: r.conversation, time: r.time }],
        PayloadView::Cleartext => if r.text is Some {
            seq![AnomalyView::CleartextMessage { conversation: r.conversation, sender: r.sender, time: r.time }]
        } else {
            Seq::empty()
        },
        PayloadView::Undecoded { .. } => Seq::empty(),
    };
    deleted + otr + body
}

/// The observations of every record of `recs`, record by record, in order.
pub open spec fn observations_in(recs: Seq<WireRecordView>) -> Seq<AnomalyView>
    decreases recs.len(),
{
    if recs.len() == 0 {
        Seq::empty()
    } else {
        observations_in(recs.drop_last()) + observations_of(recs.last())
    }
}

/// The abstract content of a list of observations.
pub open spec fn anomaly_views(s: Seq<AnomalyKind>) -> Seq<AnomalyView> {
    s.map_values(|a: AnomalyKind| a@)
}

/// Classify one record into the observations it warrants (see [`observations_of`]).
pub fn observe(record: &WireRecord) -> (found: Vec<AnomalyKind>)
    ensures
        anomaly_views(found@) == observations_of(record@),
{
    let mut out: Vec<AnomalyKind> = Vec::new();

    if record.deleted {
        out.push(AnomalyKind::DeletedRecord { store: record.store.clone(), primary_key: record.primary_key.clone() });
    }

    if contains_ascii_lowercase(record.primary_key.as_str(), OTR_KEY_NAME) {
        out.push(AnomalyKind::OtrKeyPresent { store: record.store.clone(), primary_key: record.primary_key.clone() });
    }

    match &record.payload {
        PayloadState::Encrypted { .. } => {
            out.push(AnomalyKind::EncryptedMessage { conversation: record.conversation.clone(), time: record.time.clone() });
        },
        PayloadState::Cleartext => {
            if record.text.is_some() {
                out.push(
                    AnomalyKind::CleartextMessage {
                        conversation: record.conversation.clone(),
                        sender: record.sender.clone(),
                        time: record.time.clone(),
                    },
                );
            }
        },
        _ => {},
    }
    assert(anomaly_views(out@) =~= observations_of(record@));
    out
}

/// Every observation of an interpreted store, record by record, in order (the
/// observations [`audit_store`] reports).
pub fn observe_store(store: &WireStore) -> (found: Vec<AnomalyKind>)
    ensures
        anomaly_views(found@) == observations_in(record_views(store.records@)),
{
    let mut out: Vec<AnomalyKind> = Vec::new();
    let mut i: usize = 0;
    assert(record_views(store.records@).take(0) =~= Seq::<WireRecordView>::empty());
    assert(anomaly_views(out@) =~= Seq::<AnomalyView>::empty());
    while i < store.records.len()
        invariant
            i <= store.records@.len(),
            anomaly_views(out@) == observations_in(record_views(store.records@).take(i as int)),
        decreases store.records@.len() - i,
    {
        let mut found = observe(&store.records[i]);
        let ghost before = out@;
        let ghost extra = found@;
        out.append(&mut found);
        proof {
            let recs = record_views(store.records@);
            assert(recs.take(i + 1).drop_last() =~= recs.take(i as int));
            assert(recs.take(i + 1).last() == store.records@[i as int]@);
            assert(out@ =~= before + extra);
            assert(anomaly_views(out@) =~= anomaly_views(before) + anomaly_views(extra));
        }
        i = i + 1;
    }
    assert(record_views(store.records@).take(store.records@.len() as int) =~= record_views(store.records@));
    out
}

/// The canonical finding reported for an observation: its severity, category,
/// code, note, evidence and MITRE techniques, stamped with this analyzer's source.
pub open spec fn finding_of(a: AnomalyView) -> Finding {
    report_finding(
        anomaly_severity(a),
        anomaly_category(a),
        anomaly_code(a),
        anomaly_note(a),
        ANALYZER@,
        SCOPE@,
        ANALYZER_VERSION@,
        anomaly_evidence(a),
        anomaly_mitre(a),
    )
}

impl AnomalyKind {
    /// Convert this observation into a canonical finding.
    pub fn to_finding(&self) -> (finding: Finding)
        ensures
            finding == finding_of(self@),
    {
        build_finding(
            self.severity(),
            self.category(),
            self.code(),
            self.note(),
            String::from_str(ANALYZER),
            String::from_str(SCOPE),
            String::from_str(ANALYZER_VERSION),
            self.evidence(),
            self.mitre(),
        )
    }
}

/// Audit an interpreted Wire store, returning a canonical finding for each
/// observation of each record, in record order (see [`observations_in`]).
pub fn audit_store(store: &WireStore) -> (findings: Vec<Finding>)
    ensures
        findings@ == observations_in(record_views(store.records@)).map_values(|a: AnomalyView| finding_of(a)),
{
    let observed = observe_store(store);
    let mut findings: Vec<Finding> = Vec::new();
    let mut i: usize = 0;
    while i < observed.len()
        invariant
            i <= observed@.len(),
            anomaly_views(observed@) == observations_in(record_views(store.records@)),
            findings@ == anomaly_views(observed@).take(i as int).map_values(|a: AnomalyView| finding_of(a)),
        decreases observed@.len() - i,
    {
        let f = observed[i].to_finding();
        findings.push(f);
        proof {
            let obs = anomaly_views(observed@);
            assert(obs[i as int] == observed@[i as int]@);
            assert(obs.take(i + 1) =~= obs.take(i as int).push(obs[i as int]));
            assert(findings@ =~= obs.take(i + 1).map_values(|a: AnomalyView| finding_of(a)));
        }
        i = i + 1;
    }
    assert(anomaly_views(observed@).take(observed@.len() as int) =~= anomaly_views(observed@));
    findings
}

impl Clone for AnomalyKind {
    fn clone(&self) -> (copy: Self)
        ensures
            copy == *self,
    {
        match self {
            AnomalyKind::EncryptedMessage { conversation, time } => AnomalyKind::EncryptedMessage {
                conversation: conversation.clone(),
                time: time.clone(),
            },
            AnomalyKind::CleartextMessage { conversation, sender, time } => AnomalyKind::CleartextMessage {
                conversation: conversation.clone(),
                sender: sender.clone(),
                time: time.clone(),
            },
            AnomalyKind::DeletedRecord { store, primary_key } => AnomalyKind::DeletedRecord {
                store: store.clone(),
                primary_key: primary_key.clone(),
            },
            AnomalyKind::OtrKeyPresent { store, primary_key } => AnomalyKind::OtrKeyPresent {
                store: store.clone(),
                primary_key: primary_key.clone(),
            },
        }
    }
}

} // verus!
