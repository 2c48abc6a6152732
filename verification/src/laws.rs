//! Properties of the reader, the timeline and the analyzer, stated over the
//! specifications that the functions' contracts use: what one call guarantees
//! in general, and what holds across calls.

use vstd::prelude::*;
use crate::audit::{OTR_KEY_NAME, AnomalyView, anomaly_note, names_otr_key, observations_in, observations_of, or_unknown};
use crate::text::{ascii_lower, contains_run, lex_le};
use crate::error::WireErrorView;
use crate::record::{
    WireRecord, count_deleted_in_store, count_encrypted_in_store, encrypted_event_records, event_records,
    records_in_store,
};
use crate::idb::{
    IndexedDbRecord, RecordValue, V8Value, field_text, has_property, key_text, lemma_object_field_found,
    object_field, value_text,
};
use crate::record::{
    PayloadView, SummaryView, WireRecordKind, WireRecordView, base_payload_of, base_record_of,
    event_fields, first_field_text, is_encrypted_payload_of, message_text_of, proteus_payload,
    store_kind, store_name_of, decrypted_text_of, interpreted, store_names,
    summaries_of, summary_of, lemma_store_names_shape, lemma_absent_store_counts, count_in_store,
};
use crate::timeline::{
    TimelineEntryView, entry_of, timeline_entries, is_stable_chronological_sort, at_time, time_is,
    lemma_at_time_push, lemma_stable_sort_unique,
};

verus! {

/// Asking for a record's plaintext succeeds exactly for a cleartext payload; an
/// encrypted payload is always refused with `EncryptedPayloadUnrecoverable` and
/// an undecodable one with `UndecodedValue`.
pub proof fn law_plaintext_only_for_cleartext(r: WireRecordView)
    ensures
        decrypted_text_of(r) is Ok <==> r.payload is Cleartext,
        r.payload is Encrypted <==> decrypted_text_of(r) == Err::<Seq<char>, WireErrorView>(
            WireErrorView::EncryptedPayloadUnrecoverable,
        ),
        r.payload is Undecoded ==> decrypted_text_of(r) is Err,
{
}

/// The reader never pairs an encrypted payload with message text: a record it
/// marks encrypted carries no body.
pub proof fn law_encrypted_records_carry_no_text(r: IndexedDbRecord)
    ensures
        interpreted(r).payload is Encrypted ==> interpreted(r).text is None,
{
}

/// Whatever its store, a record keeps its store name, the role of that store,
/// its rendered primary key, its sequence number and its tombstone flag.
pub proof fn law_interpretation_keeps_identity(r: IndexedDbRecord)
    ensures
        interpreted(r).store == store_name_of(r),
        interpreted(r).kind == store_kind(store_name_of(r)),
        interpreted(r).primary_key == key_text(r.key),
        interpreted(r).seq == r.seq,
        interpreted(r).deleted == r.deleted,
{
}

/// A record whose value could not be decoded, or that comes from a store with
/// no Wire role, gets no extracted field: its payload is the decode state (the
/// upstream error verbatim for an undecodable value, cleartext otherwise).
pub proof fn law_unread_records_carry_no_fields(r: IndexedDbRecord)
    requires
        r.value is Undecoded || store_kind(store_name_of(r)) == WireRecordKind::Unknown,
    ensures
        interpreted(r) == base_record_of(r),
        interpreted(r).id is None,
        interpreted(r).conversation is None,
        interpreted(r).sender is None,
        interpreted(r).time is None,
        interpreted(r).message_type is None,
        interpreted(r).name is None,
        interpreted(r).text is None,
        interpreted(r).payload == base_payload_of(r.value),
        match r.value {
            RecordValue::Undecoded { error, .. } => interpreted(r).payload == PayloadView::Undecoded {
                error: error@,
            },
            RecordValue::V8(_) => interpreted(r).payload == PayloadView::Cleartext,
        },
{
}

/// The encrypted payload an event body gets is the Proteus scheme, with the
/// reason that the key is not held in the OS Safe Storage.
pub proof fn law_proteus_payload_text()
    ensures
        proteus_payload() == (PayloadView::Encrypted {
            scheme: "Proteus"@,
            reason: "Wire message key is not held in the Chromium OS Safe Storage"@,
        }),
{
}

/// The body of an event record: a cleartext body wins over any ciphertext
/// marker; with none, an opaque body is the Proteus payload with no text; with
/// neither, the record stays cleartext with no text.
pub proof fn law_event_body(w: WireRecordView, v: V8Value)
    requires
        w.payload == PayloadView::Cleartext,
        w.text is None,
    ensures
        message_text_of(v) is Some ==> event_fields(w, v).text == message_text_of(v)
            && event_fields(w, v).payload == PayloadView::Cleartext,
        message_text_of(v) is None && is_encrypted_payload_of(v) ==> event_fields(w, v).text is None
            && event_fields(w, v).payload == proteus_payload(),
        message_text_of(v) is None && !is_encrypted_payload_of(v) ==> event_fields(w, v).text is None
            && event_fields(w, v).payload == PayloadView::Cleartext,
{
}

/// The metadata of an event record: `id`, `conversation`, `time` and `type` are
/// the scalar text of those properties; the sender is that of `from` when the
/// value has a `from` property (none when it is not scalar, without looking at
/// `sender`), else that of `sender`. Nothing else of the record changes.
pub proof fn law_event_metadata(w: WireRecordView, v: V8Value)
    ensures
        event_fields(w, v).id == field_text(v, "id"@),
        event_fields(w, v).conversation == field_text(v, "conversation"@),
        event_fields(w, v).time == field_text(v, "time"@),
        event_fields(w, v).message_type == field_text(v, "type"@),
        event_fields(w, v).sender == first_field_text(v, "from"@, "sender"@),
        match object_field(v, "from"@) {
            Some(x) => event_fields(w, v).sender == value_text(x),
            None => event_fields(w, v).sender == field_text(v, "sender"@),
        },
        event_fields(w, v).store == w.store,
        event_fields(w, v).kind == w.kind,
        event_fields(w, v).primary_key == w.primary_key,
        event_fields(w, v).name == w.name,
        event_fields(w, v).seq == w.seq,
        event_fields(w, v).deleted == w.deleted,
{
}

/// The property names that mark a ciphertext body.
pub open spec fn cipher_markers() -> Seq<Seq<char>> {
    seq!["cipher_text"@, "cipherText"@, "otr"@, "encrypted"@]
}

/// An event body is opaque exactly when the value is an `ArrayBuffer`, its
/// `data` property is one, or one of the ciphertext markers is a property of
/// the value or of its `data` object, whatever that property holds (so even
/// `encrypted: false` marks it).
pub proof fn law_cipher_classifier(v: V8Value)
    ensures
        is_encrypted_payload_of(v) <==> {
            ||| v is ArrayBuffer
            ||| (match object_field(v, "data"@) {
                Some(d) => d is ArrayBuffer,
                None => false,
            })
            ||| exists|m: Seq<char>| #[trigger] cipher_markers().contains(m) && (has_property(v, m) || match object_field(v, "data"@) {
                Some(d) => has_property(d, m),
                None => false,
            })
        },
{
    let markers = cipher_markers();
    assert forall|m: Seq<char>| #[trigger] markers.contains(m) implies (object_field(v, m) is Some <==> has_property(v, m))
        && (match object_field(v, "data"@) {
            Some(d) => (object_field(d, m) is Some <==> has_property(d, m)),
            None => true,
        }) by {
        lemma_object_field_found(v, m);
        if let Some(d) = object_field(v, "data"@) {
            lemma_object_field_found(d, m);
        }
    }
    assert(markers[0] == "cipher_text"@);
    assert(markers[1] == "cipherText"@);
    assert(markers[2] == "otr"@);
    assert(markers[3] == "encrypted"@);
    assert(markers.contains("cipher_text"@));
    assert(markers.contains("cipherText"@));
    assert(markers.contains("otr"@));
    assert(markers.contains("encrypted"@));
}

/// The first of the properties `a`, `b` present on `v`.
pub open spec fn first_present(v: V8Value, a: Seq<char>, b: Seq<char>) -> Option<V8Value> {
    match object_field(v, a) {
        Some(x) => Some(x),
        None => object_field(v, b),
    }
}

/// The text of an optional scalar value.
pub open spec fn text_of_present(o: Option<V8Value>) -> Option<Seq<char>> {
    match o {
        Some(x) => value_text(x),
        None => None,
    }
}

/// Where an event's cleartext body is read from: the first present of
/// `data.content` and `data.text`, when scalar; else the first present of the
/// value's own `content` and `text`, when scalar. A value that is not an object
/// has no body.
pub proof fn law_message_text_precedence(v: V8Value)
    ensures
        message_text_of(v) == (match (match object_field(v, "data"@) {
            Some(d) => text_of_present(first_present(d, "content"@, "text"@)),
            None => None,
        }) {
            Some(t) => Some(t),
            None => text_of_present(first_present(v, "content"@, "text"@)),
        }),
        !(v is Object) ==> message_text_of(v) is None,
{
}

/// Every record from a named store is counted under exactly one object-store
/// summary, whose counts are those of the records of that store; summary names
/// are distinct and non-empty.
pub proof fn law_summaries_cover_named_stores(recs: Seq<WireRecordView>)
    ensures
        forall|i: int| 0 <= i < recs.len() && recs[i].store.len() > 0 ==> exists|j: int|
            0 <= j < summaries_of(recs).len() && #[trigger] summaries_of(recs)[j].name == recs[i].store,
        forall|j: int, k: int| 0 <= j < k < summaries_of(recs).len() ==> summaries_of(recs)[j].name
            != summaries_of(recs)[k].name,
        forall|j: int| 0 <= j < summaries_of(recs).len() ==> (#[trigger] summaries_of(recs)[j]).name.len() > 0
            && summaries_of(recs)[j].records == count_in_store(recs, summaries_of(recs)[j].name),
{
    lemma_store_names_shape(recs);
    let names = store_names(recs);
    assert forall|i: int| 0 <= i < recs.len() && recs[i].store.len() > 0 implies exists|j: int|
        0 <= j < summaries_of(recs).len() && #[trigger] summaries_of(recs)[j].name == recs[i].store by {
        lemma_named_store_listed(recs, i);
        let j = choose|j: int| 0 <= j < names.len() && names[j] == recs[i].store;
        assert(summaries_of(recs)[j].name == names[j]);
    }
    assert forall|j: int, k: int| 0 <= j < k < summaries_of(recs).len() implies summaries_of(recs)[j].name
        != summaries_of(recs)[k].name by {
        assert(summaries_of(recs)[j].name == names[j]);
        assert(summaries_of(recs)[k].name == names[k]);
    }
    assert forall|j: int| 0 <= j < summaries_of(recs).len() implies (#[trigger] summaries_of(recs)[j]).name.len() > 0
        && summaries_of(recs)[j].records == count_in_store(recs, summaries_of(recs)[j].name) by {
        assert(summaries_of(recs)[j].name == names[j]);
    }
}

/// The store of every record with a non-empty store name is among [`store_names`].
proof fn lemma_named_store_listed(recs: Seq<WireRecordView>, i: int)
    requires
        0 <= i < recs.len(),
        recs[i].store.len() > 0,
    ensures
        store_names(recs).contains(recs[i].store),
    decreases recs.len(),
{
    let init = recs.drop_last();
    let names = store_names(init);
    if i < recs.len() - 1 {
        assert(init[i] == recs[i]);
        lemma_named_store_listed(init, i);
        let k = choose|k: int| 0 <= k < names.len() && names[k] == recs[i].store;
        if !(recs.last().store.len() == 0 || names.contains(recs.last().store)) {
            assert(store_names(recs)[k] == names[k]);
        }
    } else {
        if !names.contains(recs[i].store) {
            assert(store_names(recs)[names.len() as int] == recs[i].store);
        }
    }
}

/// The entry of an event record with a time is among the timeline's input entries.
proof fn lemma_timestamped_event_listed(recs: Seq<WireRecordView>, i: int)
    requires
        0 <= i < recs.len(),
        recs[i].kind == WireRecordKind::Event,
        recs[i].time is Some,
    ensures
        timeline_entries(recs).contains(entry_of(recs[i])->0),
    decreases recs.len(),
{
    let init = recs.drop_last();
    assert(recs =~= init.push(recs.last()));
    if i < recs.len() - 1 {
        assert(init[i] == recs[i]);
        lemma_timestamped_event_listed(init, i);
        let k = choose|k: int| 0 <= k < timeline_entries(init).len() && timeline_entries(init)[k] == entry_of(recs[i])->0;
        assert(timeline_entries(recs)[k] == timeline_entries(init)[k]);
    } else {
        let t = timeline_entries(recs);
        assert(t[t.len() - 1] == entry_of(recs[i])->0);
    }
}

/// A timeline keeps every event that has a time, with its payload, so an
/// encrypted message stays on the timeline with its body marked unrecoverable.
pub proof fn law_timeline_keeps_timestamped_events(recs: Seq<WireRecordView>, out: Seq<TimelineEntryView>, i: int)
    requires
        is_stable_chronological_sort(out, timeline_entries(recs)),
        0 <= i < recs.len(),
        recs[i].kind == WireRecordKind::Event,
        recs[i].time is Some,
    ensures
        out.contains(entry_of(recs[i])->0),
{
    let e = entry_of(recs[i])->0;
    let input = timeline_entries(recs);
    lemma_timestamped_event_listed(recs, i);
    let k = choose|k: int| 0 <= k < input.len() && input[k] == e;
    input.lemma_filter_contains(time_is(e.time), k);
    assert(at_time(out, e.time) == at_time(input, e.time));
    out.lemma_filter_contains_rev(time_is(e.time), e);
}

/// `r` is an event record stored at time `t`.
pub open spec fn is_event_at(r: WireRecordView, t: Seq<char>) -> bool {
    r.kind == WireRecordKind::Event && r.time == Some(t)
}

/// No two event records of `recs` (at different positions) are stored at the
/// same time.
pub open spec fn distinct_event_times(recs: Seq<WireRecordView>) -> bool {
    forall|i: int, j: int, t: Seq<char>|
        #![trigger is_event_at(recs[i], t), is_event_at(recs[j], t)]
        0 <= i < recs.len() && 0 <= j < recs.len() && is_event_at(recs[i], t) && is_event_at(recs[j], t)
            ==> i == j
}

/// With distinct event times, the timeline input holds, at a time `t`, the
/// entry of the one event stored at `t`, or nothing when there is none.
proof fn lemma_entries_at_distinct_time(recs: Seq<WireRecordView>, t: Seq<char>)
    requires
        distinct_event_times(recs),
    ensures
        (forall|i: int| 0 <= i < recs.len() ==> !is_event_at(#[trigger] recs[i], t)) ==> at_time(
            timeline_entries(recs),
            t,
        ) == Seq::<TimelineEntryView>::empty(),
        forall|i: int| 0 <= i < recs.len() && is_event_at(#[trigger] recs[i], t) ==> at_time(
            timeline_entries(recs),
            t,
        ) == seq![entry_of(recs[i])->0],
    decreases recs.len(),
{
    if recs.len() == 0 {
        reveal_with_fuel(Seq::filter, 1);
        assert(timeline_entries(recs) =~= Seq::<TimelineEntryView>::empty());
        assert(at_time(timeline_entries(recs), t) =~= Seq::<TimelineEntryView>::empty());
    } else {
        let init = recs.drop_last();
        let r = recs.last();
        assert(recs =~= init.push(r));
        assert forall|i: int, j: int, u: Seq<char>|
            0 <= i < init.len() && 0 <= j < init.len() && #[trigger] is_event_at(init[i], u) && #[trigger] is_event_at(init[j], u)
            implies i == j by {
            assert(init[i] == recs[i] && init[j] == recs[j]);
        }
        lemma_entries_at_distinct_time(init, t);
        let before = timeline_entries(init);
        if r.kind == WireRecordKind::Event && r.time is Some {
            let e = entry_of(r)->0;
            assert(timeline_entries(recs) =~= before.push(e));
            lemma_at_time_push(before, e, t);
            if r.time == Some(t) {
                assert(is_event_at(recs[recs.len() - 1], t));
                assert forall|i: int| 0 <= i < init.len() implies !is_event_at(#[trigger] init[i], t) by {
                    assert(init[i] == recs[i]);
                }
                assert(at_time(timeline_entries(recs), t) =~= seq![e]);
                assert forall|i: int| 0 <= i < recs.len() && is_event_at(#[trigger] recs[i], t) implies at_time(
                    timeline_entries(recs),
                    t,
                ) == seq![entry_of(recs[i])->0] by {
                    assert(i == recs.len() - 1);
                }
            } else {
                assert forall|i: int| 0 <= i < recs.len() && is_event_at(#[trigger] recs[i], t) implies at_time(
                    timeline_entries(recs),
                    t,
                ) == seq![entry_of(recs[i])->0] by {
                    assert(init[i] == recs[i]);
                }
                if forall|i: int| 0 <= i < recs.len() ==> !is_event_at(#[trigger] recs[i], t) {
                    assert forall|i: int| 0 <= i < init.len() implies !is_event_at(#[trigger] init[i], t) by {
                        assert(init[i] == recs[i]);
                    }
                }
            }
        } else {
            assert(timeline_entries(recs) =~= before);
            assert forall|i: int| 0 <= i < recs.len() && is_event_at(#[trigger] recs[i], t) implies at_time(
                timeline_entries(recs),
                t,
            ) == seq![entry_of(recs[i])->0] by {
                assert(i < init.len());
                assert(init[i] == recs[i]);
            }
            if forall|i: int| 0 <= i < recs.len() ==> !is_event_at(#[trigger] recs[i], t) {
                assert forall|i: int| 0 <= i < init.len() implies !is_event_at(#[trigger] init[i], t) by {
                    assert(init[i] == recs[i]);
                }
            }
        }
    }
}

/// The timeline does not depend on the order in which the store lists its
/// records: two stores holding the same records, each with no two events
/// stored at the same time, give the same timeline.
pub proof fn law_timeline_ignores_record_order(
    recs1: Seq<WireRecordView>,
    recs2: Seq<WireRecordView>,
    out1: Seq<TimelineEntryView>,
    out2: Seq<TimelineEntryView>,
)
    requires
        recs1.to_multiset() == recs2.to_multiset(),
        distinct_event_times(recs1),
        distinct_event_times(recs2),
        is_stable_chronological_sort(out1, timeline_entries(recs1)),
        is_stable_chronological_sort(out2, timeline_entries(recs2)),
    ensures
        out1 == out2,
{
    broadcast use vstd::seq_lib::group_to_multiset_ensures;

    assert forall|t: Seq<char>| #[trigger] at_time(out1, t) == at_time(out2, t) by {
        lemma_entries_at_distinct_time(recs1, t);
        lemma_entries_at_distinct_time(recs2, t);
        assert(at_time(out1, t) == at_time(timeline_entries(recs1), t));
        assert(at_time(out2, t) == at_time(timeline_entries(recs2), t));
        if exists|i: int| 0 <= i < recs1.len() && is_event_at(#[trigger] recs1[i], t) {
            let i = choose|i: int| 0 <= i < recs1.len() && is_event_at(#[trigger] recs1[i], t);
            let r = recs1[i];
            assert(recs1.contains(r));
            assert(recs2.to_multiset().count(r) > 0);
            let j = choose|j: int| 0 <= j < recs2.len() && recs2[j] == r;
            assert(is_event_at(recs2[j], t));
        } else if exists|j: int| 0 <= j < recs2.len() && is_event_at(#[trigger] recs2[j], t) {
            let j = choose|j: int| 0 <= j < recs2.len() && is_event_at(#[trigger] recs2[j], t);
            let r = recs2[j];
            assert(recs2.contains(r));
            assert(recs1.to_multiset().count(r) > 0);
            let i = choose|i: int| 0 <= i < recs1.len() && recs1[i] == r;
            assert(is_event_at(recs1[i], t));
        }
    }
    lemma_stable_sort_unique(out1, out2);
}

/// The observations of the record at position `i` are among the analyzer's
/// observations of all records, so every recovered tombstone, exposed `otr_key`,
/// encrypted body and recovered cleartext body is reported.
pub proof fn law_every_record_is_audited(recs: Seq<WireRecordView>, i: int, a: AnomalyView)
    requires
        0 <= i < recs.len(),
        observations_of(recs[i]).contains(a),
    ensures
        observations_in(recs).contains(a),
    decreases recs.len(),
{
    let init = recs.drop_last();
    let k = choose|k: int| 0 <= k < observations_of(recs[i]).len() && observations_of(recs[i])[k] == a;
    if i < recs.len() - 1 {
        assert(init[i] == recs[i]);
        law_every_record_is_audited(init, i, a);
        let m = choose|m: int| 0 <= m < observations_in(init).len() && observations_in(init)[m] == a;
        assert(observations_in(recs)[m] == a);
    } else {
        assert(observations_in(recs)[observations_in(init).len() + k] == a);
    }
}

/// A store with no tombstone, no `otr_key` record and no encrypted payload
/// yields no observation of those kinds.
pub proof fn law_clean_records_raise_no_alerts(recs: Seq<WireRecordView>)
    requires
        forall|i: int| 0 <= i < recs.len() ==> !(#[trigger] recs[i]).deleted && !names_otr_key(recs[i])
            && !(recs[i].payload is Encrypted),
    ensures
        forall|k: int| 0 <= k < observations_in(recs).len() ==> (#[trigger] observations_in(recs)[k]) is CleartextMessage,
    decreases recs.len(),
{
    if recs.len() > 0 {
        let init = recs.drop_last();
        assert forall|i: int| 0 <= i < init.len() implies !(#[trigger] init[i]).deleted && !names_otr_key(init[i])
            && !(init[i].payload is Encrypted) by {
            assert(init[i] == recs[i]);
        }
        law_clean_records_raise_no_alerts(init);
        let last = recs.last();
        assert(recs[recs.len() - 1] == last);
        assert forall|k: int| 0 <= k < observations_in(recs).len() implies (#[trigger] observations_in(recs)[k]) is CleartextMessage by {
            if k < observations_in(init).len() {
                assert(observations_in(recs)[k] == observations_in(init)[k]);
            } else {
                assert(observations_in(recs)[k] == observations_of(last)[k - observations_in(init).len()]);
            }
        }
    }
}

/// How many of `recs` come from a named (non-empty) object store.
pub open spec fn named_record_count(recs: Seq<WireRecordView>) -> nat
    decreases recs.len(),
{
    if recs.len() == 0 {
        0
    } else {
        named_record_count(recs.drop_last()) + if recs.last().store.len() > 0 { 1nat } else { 0nat }
    }
}

/// The sum of the record counts of `sums`.
pub open spec fn total_records(sums: Seq<SummaryView>) -> nat
    decreases sums.len(),
{
    if sums.len() == 0 {
        0
    } else {
        total_records(sums.drop_last()) + sums.last().records
    }
}

/// Replacing one roll-up changes the total by the difference of their counts.
proof fn lemma_total_records_update(sums: Seq<SummaryView>, j: int, x: SummaryView)
    requires
        0 <= j < sums.len(),
    ensures
        total_records(sums.update(j, x)) + sums[j].records == total_records(sums) + x.records,
    decreases sums.len(),
{
    let u = sums.update(j, x);
    if j == sums.len() - 1 {
        assert(u.drop_last() =~= sums.drop_last());
    } else {
        lemma_total_records_update(sums.drop_last(), j, x);
        assert(u.drop_last() =~= sums.drop_last().update(j, x));
    }
}

/// The roll-ups count every record of a named store exactly once: their record
/// counts add up to the number of records that come from a named store.
pub proof fn law_summary_counts_add_up(recs: Seq<WireRecordView>)
    ensures
        total_records(summaries_of(recs)) == named_record_count(recs),
    decreases recs.len(),
{
    if recs.len() == 0 {
        assert(summaries_of(recs) =~= Seq::<SummaryView>::empty());
    } else {
        let init = recs.drop_last();
        let r = recs.last();
        let names = store_names(init);
        law_summary_counts_add_up(init);
        lemma_store_names_shape(init);
        let before = summaries_of(init);
        let after = summaries_of(recs);
        if r.store.len() == 0 {
            assert forall|k: int| 0 <= k < names.len() implies #[trigger] after[k] == before[k] by {
                assert(names[k].len() > 0);
            }
            assert(after =~= before);
        } else if names.contains(r.store) {
            let j = choose|j: int| 0 <= j < names.len() && names[j] == r.store;
            let x = summary_of(recs, r.store);
            assert forall|k: int| 0 <= k < names.len() implies #[trigger] after[k] == before.update(j, x)[k] by {
                if k != j {
                    assert(names[k] != names[j]);
                }
            }
            assert(after =~= before.update(j, x));
            lemma_total_records_update(before, j, x);
        } else {
            lemma_absent_store_counts(init, r.store);
            let x = summary_of(recs, r.store);
            assert(store_names(recs) == names.push(r.store));
            assert forall|k: int| 0 <= k < names.len() implies #[trigger] after[k] == before[k] by {
                assert(names[k] != r.store);
            }
            assert(after =~= before.push(x));
            assert(after.drop_last() =~= before);
        }
    }
}

/// A text contains what stands between any prefix and any suffix of it.
proof fn lemma_contains_middle(x: Seq<char>, n: Seq<char>, y: Seq<char>)
    ensures
        contains_run(x + n + y, n),
{
    let h = x + n + y;
    assert(h.subrange(x.len() as int, (x.len() + n.len()) as int) =~= n);
}

/// ASCII lower-casing distributes over concatenation.
proof fn lemma_lower_concat(a: Seq<char>, b: Seq<char>)
    ensures
        (a + b).map_values(|c: char| ascii_lower(c)) == a.map_values(|c: char| ascii_lower(c)) + b.map_values(
            |c: char| ascii_lower(c),
        ),
{
    assert((a + b).map_values(|c: char| ascii_lower(c)) =~= a.map_values(|c: char| ascii_lower(c)) + b.map_values(
        |c: char| ascii_lower(c),
    ));
}

/// Each observation's note names what it reports: an encrypted message's note
/// names its conversation (or `<unknown>`) and says, in lower case, that the
/// plaintext is `unrecoverable`; a cleartext message's note names its
/// conversation; the note of a tombstone or of an exposed `otr_key` names the
/// record as `(store/key)`.
pub proof fn law_notes_name_what_they_report(a: AnomalyView)
    ensures
        match a {
            AnomalyView::EncryptedMessage { conversation, .. } => {
                &&& contains_run(anomaly_note(a), or_unknown(conversation))
                &&& contains_run(anomaly_note(a), "unrecoverable"@)
                &&& contains_run(anomaly_note(a).map_values(|c: char| ascii_lower(c)), "unrecoverable"@)
            },
            AnomalyView::CleartextMessage { conversation, .. } => contains_run(anomaly_note(a), or_unknown(conversation)),
            AnomalyView::DeletedRecord { store, primary_key } => contains_run(
                anomaly_note(a),
                "("@ + store + "/"@ + primary_key + ")"@,
            ),
            AnomalyView::OtrKeyPresent { store, primary_key } => contains_run(
                anomaly_note(a),
                "("@ + store + "/"@ + primary_key + ")"@,
            ),
        },
{
    match a {
        AnomalyView::EncryptedMessage { conversation, .. } => {
            let head = "a message in conversation "@;
            let c = or_unknown(conversation);
            let tail = " is client-side (Proteus) encrypted; Wire's message key is not held in the Chromium OS Safe Storage, so the plaintext is unrecoverable from this artifact"@;
            let before = " is client-side (Proteus) encrypted; Wire's message key is not held in the Chromium OS Safe Storage, so the plaintext is "@;
            let word = "unrecoverable"@;
            let after = " from this artifact"@;
            reveal_strlit(" is client-side (Proteus) encrypted; Wire's message key is not held in the Chromium OS Safe Storage, so the plaintext is unrecoverable from this artifact");
            reveal_strlit(" is client-side (Proteus) encrypted; Wire's message key is not held in the Chromium OS Safe Storage, so the plaintext is ");
            reveal_strlit("unrecoverable");
            reveal_strlit(" from this artifact");
            assert(tail =~= before + word + after);
            assert(anomaly_note(a) == head + c + tail);
            lemma_contains_middle(head, c, tail);
            let x = head + c + before;
            assert(anomaly_note(a) =~= x + word + after);
            lemma_contains_middle(x, word, after);
            lemma_lower_concat(x + word, after);
            lemma_lower_concat(x, word);
            assert(word.map_values(|c: char| ascii_lower(c)) =~= word);
            lemma_contains_middle(
                x.map_values(|c: char| ascii_lower(c)),
                word,
                after.map_values(|c: char| ascii_lower(c)),
            );
        },
        AnomalyView::CleartextMessage { conversation, .. } => {
            lemma_contains_middle(
                "a cleartext message body was recovered from conversation "@,
                or_unknown(conversation),
                " in the Wire IndexedDB"@,
            );
        },
        AnomalyView::DeletedRecord { store, primary_key } => {
            let lead = "a deleted Wire record ("@;
            let rest = ") survives as a LevelDB tombstone and was recovered \u{2014} consistent with residual data after deletion"@;
            reveal_strlit("a deleted Wire record (");
            reveal_strlit("a deleted Wire record ");
            reveal_strlit("(");
            reveal_strlit(") survives as a LevelDB tombstone and was recovered \u{2014} consistent with residual data after deletion");
            reveal_strlit(")");
            reveal_strlit(" survives as a LevelDB tombstone and was recovered \u{2014} consistent with residual data after deletion");
            assert(lead =~= "a deleted Wire record "@ + "("@);
            assert(rest =~= ")"@ + " survives as a LevelDB tombstone and was recovered \u{2014} consistent with residual data after deletion"@);
            let n = "("@ + store + "/"@ + primary_key + ")"@;
            assert(anomaly_note(a) =~= "a deleted Wire record "@ + n
                + " survives as a LevelDB tombstone and was recovered \u{2014} consistent with residual data after deletion"@);
            lemma_contains_middle(
                "a deleted Wire record "@,
                n,
                " survives as a LevelDB tombstone and was recovered \u{2014} consistent with residual data after deletion"@,
            );
        },
        AnomalyView::OtrKeyPresent { store, primary_key } => {
            let lead = "the Wire otr_key attachment key is present in the IndexedDB ("@;
            let rest = ") \u{2014} consistent with recoverable attachment-decryption key material"@;
            reveal_strlit("the Wire otr_key attachment key is present in the IndexedDB (");
            reveal_strlit("the Wire otr_key attachment key is present in the IndexedDB ");
            reveal_strlit("(");
            reveal_strlit(") \u{2014} consistent with recoverable attachment-decryption key material");
            reveal_strlit(")");
            reveal_strlit(" \u{2014} consistent with recoverable attachment-decryption key material");
            assert(lead =~= "the Wire otr_key attachment key is present in the IndexedDB "@ + "("@);
            assert(rest =~= ")"@ + " \u{2014} consistent with recoverable attachment-decryption key material"@);
            let n = "("@ + store + "/"@ + primary_key + ")"@;
            assert(anomaly_note(a) =~= "the Wire otr_key attachment key is present in the IndexedDB "@ + n
                + " \u{2014} consistent with recoverable attachment-decryption key material"@);
            lemma_contains_middle(
                "the Wire otr_key attachment key is present in the IndexedDB "@,
                n,
                " \u{2014} consistent with recoverable attachment-decryption key material"@,
            );
        },
    }
}

/// A timeline entry is the event record's own: its time, the conversation the
/// event belongs to, its sender, type, payload and tombstone flag; a record with
/// no time has none.
pub proof fn law_timeline_entry_is_the_record_s(r: WireRecordView)
    ensures
        match r.time {
            Some(t) => entry_of(r) == Some(
                TimelineEntryView {
                    time: t,
                    conversation: r.conversation,
                    sender: r.sender,
                    message_type: r.message_type,
                    payload: r.payload,
                    deleted: r.deleted,
                },
            ),
            None => entry_of(r) is None,
        },
{
}

/// Read from the stored value: the timeline entry of a timestamped record of an
/// events store carries the value's `conversation` property (not its `id`), its
/// sender (`from`, else `sender`), its `type` and the record's tombstone flag.
pub proof fn law_event_entry_from_stored_value(x: IndexedDbRecord)
    requires
        store_kind(store_name_of(x)) == WireRecordKind::Event,
        x.value is V8,
        field_text(x.value->V8_0, "time"@) is Some,
    ensures
        entry_of(interpreted(x)) == Some(
            TimelineEntryView {
                time: field_text(x.value->V8_0, "time"@)->0,
                conversation: field_text(x.value->V8_0, "conversation"@),
                sender: first_field_text(x.value->V8_0, "from"@, "sender"@),
                message_type: field_text(x.value->V8_0, "type"@),
                payload: interpreted(x).payload,
                deleted: x.deleted,
            },
        ),
{
}

/// Every entry of the timeline input is the entry of some timestamped event record.
proof fn lemma_timeline_entry_source(recs: Seq<WireRecordView>, k: int)
    requires
        0 <= k < timeline_entries(recs).len(),
    ensures
        exists|i: int| 0 <= i < recs.len() && recs[i].kind == WireRecordKind::Event
            && #[trigger] entry_of(recs[i]) == Some(timeline_entries(recs)[k]),
    decreases recs.len(),
{
    let init = recs.drop_last();
    let r = recs.last();
    assert(recs =~= init.push(r));
    let before = timeline_entries(init);
    if r.kind == WireRecordKind::Event && entry_of(r) is Some {
        assert(timeline_entries(recs) =~= before.push(entry_of(r)->0));
        if k < before.len() {
            lemma_timeline_entry_source(init, k);
            let i = choose|i: int| 0 <= i < init.len() && init[i].kind == WireRecordKind::Event
                && #[trigger] entry_of(init[i]) == Some(before[k]);
            assert(recs[i] == init[i]);
        } else {
            assert(recs[recs.len() - 1] == r);
        }
    } else {
        assert(timeline_entries(recs) =~= before);
        lemma_timeline_entry_source(init, k);
        let i = choose|i: int| 0 <= i < init.len() && init[i].kind == WireRecordKind::Event
            && #[trigger] entry_of(init[i]) == Some(before[k]);
        assert(recs[i] == init[i]);
    }
}

/// Every entry of a timeline comes from one timestamped event record and carries
/// that record's time, conversation, sender, type, payload and tombstone flag.
pub proof fn law_timeline_entries_are_event_records(recs: Seq<WireRecordView>, out: Seq<TimelineEntryView>)
    requires
        is_stable_chronological_sort(out, timeline_entries(recs)),
    ensures
        forall|k: int| 0 <= k < out.len() ==> exists|i: int| {
            &&& 0 <= i < recs.len()
            &&& recs[i].kind == WireRecordKind::Event
            &&& recs[i].time == Some((#[trigger] out[k]).time)
            &&& out[k].conversation == recs[i].conversation
            &&& out[k].sender == recs[i].sender
            &&& out[k].message_type == recs[i].message_type
            &&& out[k].payload == recs[i].payload
            &&& out[k].deleted == recs[i].deleted
        },
{
    let input = timeline_entries(recs);
    assert forall|k: int| 0 <= k < out.len() implies exists|i: int| {
        &&& 0 <= i < recs.len()
        &&& recs[i].kind == WireRecordKind::Event
        &&& recs[i].time == Some((#[trigger] out[k]).time)
        &&& out[k].conversation == recs[i].conversation
        &&& out[k].sender == recs[i].sender
        &&& out[k].message_type == recs[i].message_type
        &&& out[k].payload == recs[i].payload
        &&& out[k].deleted == recs[i].deleted
    } by {
        let e = out[k];
        out.lemma_filter_contains(time_is(e.time), k);
        assert(at_time(out, e.time) == at_time(input, e.time));
        input.lemma_filter_contains_rev(time_is(e.time), e);
        let m = choose|m: int| 0 <= m < input.len() && input[m] == e;
        lemma_timeline_entry_source(recs, m);
        let i = choose|i: int| 0 <= i < recs.len() && recs[i].kind == WireRecordKind::Event
            && #[trigger] entry_of(recs[i]) == Some(input[m]);
        assert(recs[i].time is Some);
    }
}

/// The plaintext of a cleartext record is its recovered body, whatever its
/// tombstone flag; it is empty only when the record has no body. An
/// undecodable record is refused with the upstream decode error, verbatim.
pub proof fn law_cleartext_body_is_returned(r: WireRecordView)
    ensures
        r.payload is Cleartext && r.text is Some ==> decrypted_text_of(r) == Ok::<Seq<char>, WireErrorView>(
            r.text->0,
        ),
        r.payload is Cleartext && r.text is None ==> decrypted_text_of(r) == Ok::<Seq<char>, WireErrorView>(
            Seq::empty(),
        ),
        match r.payload {
            PayloadView::Undecoded { error } => decrypted_text_of(r) == Err::<Seq<char>, WireErrorView>(
                WireErrorView::UndecodedValue(error),
            ),
            _ => true,
        },
{
}

/// Read from the stored value: the plaintext of an event record with a
/// cleartext body is that body, for a live record and a recovered tombstone alike.
pub proof fn law_recovered_body_is_returned(x: IndexedDbRecord)
    requires
        store_kind(store_name_of(x)) == WireRecordKind::Event,
        x.value is V8,
        message_text_of(x.value->V8_0) is Some,
    ensures
        decrypted_text_of(interpreted(x)) == Ok::<Seq<char>, WireErrorView>(message_text_of(x.value->V8_0)->0),
{
}

/// Each observation of a record names that record: an encrypted or cleartext
/// message observation carries the record's own conversation, sender and time,
/// a tombstone or `otr_key` observation its own store and primary key; and each
/// is made only when the record warrants it.
pub proof fn law_observations_name_their_record(r: WireRecordView)
    ensures
        forall|k: int| 0 <= k < observations_of(r).len() ==> match #[trigger] observations_of(r)[k] {
            AnomalyView::EncryptedMessage { conversation, time } => r.payload is Encrypted
                && conversation == r.conversation && time == r.time,
            AnomalyView::CleartextMessage { conversation, sender, time } => r.payload is Cleartext
                && r.text is Some && conversation == r.conversation && sender == r.sender && time == r.time,
            AnomalyView::DeletedRecord { store, primary_key } => r.deleted && store == r.store
                && primary_key == r.primary_key,
            AnomalyView::OtrKeyPresent { store, primary_key } => names_otr_key(r) && store == r.store
                && primary_key == r.primary_key,
        },
        r.payload is Encrypted ==> observations_of(r).contains(
            AnomalyView::EncryptedMessage { conversation: r.conversation, time: r.time },
        ),
        r.payload is Cleartext && r.text is Some ==> observations_of(r).contains(
            AnomalyView::CleartextMessage { conversation: r.conversation, sender: r.sender, time: r.time },
        ),
        r.deleted ==> observations_of(r).contains(
            AnomalyView::DeletedRecord { store: r.store, primary_key: r.primary_key },
        ),
        names_otr_key(r) ==> observations_of(r).contains(
            AnomalyView::OtrKeyPresent { store: r.store, primary_key: r.primary_key },
        ),
{
    let obs = observations_of(r);
    let d: Seq<AnomalyView> = if r.deleted {
        seq![AnomalyView::DeletedRecord { store: r.store, primary_key: r.primary_key }]
    } else {
        Seq::empty()
    };
    let o: Seq<AnomalyView> = if names_otr_key(r) {
        seq![AnomalyView::OtrKeyPresent { store: r.store, primary_key: r.primary_key }]
    } else {
        Seq::empty()
    };
    let b: Seq<AnomalyView> = match r.payload {
        PayloadView::Encrypted { .. } => seq![AnomalyView::EncryptedMessage { conversation: r.conversation, time: r.time }],
        PayloadView::Cleartext => if r.text is Some {
            seq![AnomalyView::CleartextMessage { conversation: r.conversation, sender: r.sender, time: r.time }]
        } else {
            Seq::empty()
        },
        PayloadView::Undecoded { .. } => Seq::empty(),
    };
    assert(obs == d + o + b);
    assert forall|k: int| 0 <= k < obs.len() implies match #[trigger] obs[k] {
        AnomalyView::EncryptedMessage { conversation, time } => r.payload is Encrypted
            && conversation == r.conversation && time == r.time,
        AnomalyView::CleartextMessage { conversation, sender, time } => r.payload is Cleartext
            && r.text is Some && conversation == r.conversation && sender == r.sender && time == r.time,
        AnomalyView::DeletedRecord { store, primary_key } => r.deleted && store == r.store
            && primary_key == r.primary_key,
        AnomalyView::OtrKeyPresent { store, primary_key } => names_otr_key(r) && store == r.store
            && primary_key == r.primary_key,
    } by {
        if k < d.len() {
            assert(obs[k] == d[k]);
        } else if k < d.len() + o.len() {
            assert(obs[k] == o[k - d.len()]);
        } else {
            assert(obs[k] == b[k - d.len() - o.len()]);
        }
    }
    if r.deleted {
        assert(obs[0] == d[0]);
    }
    if names_otr_key(r) {
        assert(obs[d.len() as int] == o[0]);
    }
    if b.len() > 0 {
        assert(obs[(d.len() + o.len()) as int] == b[0]);
    }
}

/// Every observation of a store is an observation of one of its records.
pub proof fn law_store_observations_come_from_records(recs: Seq<WireRecordView>)
    ensures
        forall|k: int| 0 <= k < observations_in(recs).len() ==> exists|i: int|
            0 <= i < recs.len() && observations_of(recs[i]).contains(#[trigger] observations_in(recs)[k]),
    decreases recs.len(),
{
    if recs.len() > 0 {
        let init = recs.drop_last();
        law_store_observations_come_from_records(init);
        let n = observations_in(init).len();
        assert forall|k: int| 0 <= k < observations_in(recs).len() implies exists|i: int|
            0 <= i < recs.len() && observations_of(recs[i]).contains(#[trigger] observations_in(recs)[k]) by {
            if k < n {
                assert(observations_in(recs)[k] == observations_in(init)[k]);
                let i = choose|i: int| 0 <= i < init.len() && observations_of(init[i]).contains(observations_in(init)[k]);
                assert(recs[i] == init[i]);
            } else {
                let j = k - n;
                assert(observations_in(recs)[k] == observations_of(recs.last())[j]);
                assert(recs[recs.len() - 1] == recs.last());
            }
        }
    }
}

/// The records a store query returns for the object store `name`: each comes
/// from that store (by name, not by Wire role); every record of that store is
/// returned; and a record added at the end is returned last exactly when it
/// comes from that store, so the source order is kept.
pub proof fn law_records_in_store_are_that_store_s(recs: Seq<WireRecord>, name: Seq<char>)
    ensures
        forall|k: int| 0 <= k < records_in_store(recs, name).len() ==> (#[trigger] records_in_store(recs, name)[k]).store@
            == name,
        forall|i: int| 0 <= i < recs.len() && (#[trigger] recs[i]).store@ == name ==> records_in_store(recs, name).contains(
            recs[i],
        ),
        forall|r: WireRecord| #[trigger] records_in_store(recs.push(r), name) == if r.store@ == name {
            records_in_store(recs, name).push(r)
        } else {
            records_in_store(recs, name)
        },
{
    broadcast use vstd::seq_lib::group_filter_ensures;

    assert forall|r: WireRecord| #[trigger] records_in_store(recs.push(r), name) == if r.store@ == name {
        records_in_store(recs, name).push(r)
    } else {
        records_in_store(recs, name)
    } by {
        reveal_with_fuel(Seq::filter, 1);
        assert(recs.push(r).drop_last() =~= recs);
    }
}

/// The event query returns exactly the event records, in source order; the
/// encrypted-event query exactly the event records whose payload is encrypted.
pub proof fn law_event_queries_select_by_role_and_payload(recs: Seq<WireRecord>)
    ensures
        forall|k: int| 0 <= k < event_records(recs).len() ==> (#[trigger] event_records(recs)[k]).kind
            == WireRecordKind::Event,
        forall|i: int| 0 <= i < recs.len() && (#[trigger] recs[i]).kind == WireRecordKind::Event ==> event_records(
            recs,
        ).contains(recs[i]),
        forall|k: int| 0 <= k < encrypted_event_records(recs).len() ==> (#[trigger] encrypted_event_records(recs)[k]).kind
            == WireRecordKind::Event && encrypted_event_records(recs)[k].payload@ is Encrypted,
        forall|i: int| 0 <= i < recs.len() && (#[trigger] recs[i]).kind == WireRecordKind::Event
            && recs[i].payload@ is Encrypted ==> encrypted_event_records(recs).contains(recs[i]),
        forall|r: WireRecord| #[trigger] event_records(recs.push(r)) == if r.kind == WireRecordKind::Event {
            event_records(recs).push(r)
        } else {
            event_records(recs)
        },
        forall|r: WireRecord| #[trigger] encrypted_event_records(recs.push(r)) == if r.kind == WireRecordKind::Event
            && r.payload@ is Encrypted {
            encrypted_event_records(recs).push(r)
        } else {
            encrypted_event_records(recs)
        },
{
    broadcast use vstd::seq_lib::group_filter_ensures;

    let ev = event_records(recs);
    assert forall|i: int| 0 <= i < recs.len() && (#[trigger] recs[i]).kind == WireRecordKind::Event
        && recs[i].payload@ is Encrypted implies encrypted_event_records(recs).contains(recs[i]) by {
        assert(ev.contains(recs[i]));
        let m = choose|m: int| 0 <= m < ev.len() && ev[m] == recs[i];
        ev.lemma_filter_contains(|r: WireRecord| r.payload@ is Encrypted, m);
    }
    assert forall|k: int| 0 <= k < encrypted_event_records(recs).len() implies (#[trigger] encrypted_event_records(
        recs,
    )[k]).kind == WireRecordKind::Event && encrypted_event_records(recs)[k].payload@ is Encrypted by {
        let x = encrypted_event_records(recs)[k];
        assert(encrypted_event_records(recs).contains(x));
        ev.lemma_filter_contains_rev(|r: WireRecord| r.payload@ is Encrypted, x);
    }
    assert forall|r: WireRecord| #[trigger] event_records(recs.push(r)) == if r.kind == WireRecordKind::Event {
        event_records(recs).push(r)
    } else {
        event_records(recs)
    } by {
        reveal_with_fuel(Seq::filter, 1);
        assert(recs.push(r).drop_last() =~= recs);
    }
    assert forall|r: WireRecord| #[trigger] encrypted_event_records(recs.push(r)) == if r.kind == WireRecordKind::Event
        && r.payload@ is Encrypted {
        encrypted_event_records(recs).push(r)
    } else {
        encrypted_event_records(recs)
    } by {
        reveal_with_fuel(Seq::filter, 1);
        assert(recs.push(r).drop_last() =~= recs);
        assert(event_records(recs.push(r)) == if r.kind == WireRecordKind::Event {
            event_records(recs).push(r)
        } else {
            event_records(recs)
        });
        if r.kind == WireRecordKind::Event {
            assert(event_records(recs).push(r).drop_last() =~= event_records(recs));
        }
    }
}

/// Records of the store `name`.
pub open spec fn of_store(name: Seq<char>) -> spec_fn(WireRecordView) -> bool {
    |r: WireRecordView| r.store == name
}

/// Records of the store `name` whose payload is encrypted.
pub open spec fn encrypted_of_store(name: Seq<char>) -> spec_fn(WireRecordView) -> bool {
    |r: WireRecordView| r.store == name && r.payload is Encrypted
}

/// Tombstoned records of the store `name`.
pub open spec fn deleted_of_store(name: Seq<char>) -> spec_fn(WireRecordView) -> bool {
    |r: WireRecordView| r.store == name && r.deleted
}

/// The per-store counts count the matching records: all records of the store,
/// those with an encrypted payload (an undecodable or cleartext one never
/// counts), and the tombstones. A store with no encrypted record counts none.
pub proof fn law_store_counts_count_matching_records(recs: Seq<WireRecordView>, name: Seq<char>)
    ensures
        count_in_store(recs, name) == recs.filter(of_store(name)).len(),
        count_encrypted_in_store(recs, name) == recs.filter(encrypted_of_store(name)).len(),
        count_deleted_in_store(recs, name) == recs.filter(deleted_of_store(name)).len(),
        count_encrypted_in_store(recs, name) <= count_in_store(recs, name),
        count_deleted_in_store(recs, name) <= count_in_store(recs, name),
        (forall|i: int| 0 <= i < recs.len() ==> !((#[trigger] recs[i]).payload is Encrypted))
            ==> count_encrypted_in_store(recs, name) == 0,
    decreases recs.len(),
{
    reveal_with_fuel(Seq::filter, 1);
    if recs.len() > 0 {
        let init = recs.drop_last();
        law_store_counts_count_matching_records(init, name);
        if forall|i: int| 0 <= i < recs.len() ==> !((#[trigger] recs[i]).payload is Encrypted) {
            assert forall|i: int| 0 <= i < init.len() implies !((#[trigger] init[i]).payload is Encrypted) by {
                assert(init[i] == recs[i]);
            }
            assert(recs[recs.len() - 1] == recs.last());
        }
    }
}

/// Every roll-up counts the records of its store, those of them with an
/// encrypted payload and the tombstones; a store without an encrypted record
/// reports no encrypted payload, however many records failed to decode.
pub proof fn law_summaries_count_matching_records(recs: Seq<WireRecordView>)
    ensures
        forall|j: int| 0 <= j < summaries_of(recs).len() ==> {
            let s = #[trigger] summaries_of(recs)[j];
            &&& s.kind == store_kind(s.name)
            &&& s.records == recs.filter(of_store(s.name)).len()
            &&& s.encrypted_payloads == recs.filter(encrypted_of_store(s.name)).len()
            &&& s.deleted == recs.filter(deleted_of_store(s.name)).len()
        },
        (forall|i: int| 0 <= i < recs.len() ==> !((#[trigger] recs[i]).payload is Encrypted)) ==> forall|j: int|
            0 <= j < summaries_of(recs).len() ==> (#[trigger] summaries_of(recs)[j]).encrypted_payloads == 0,
{
    assert forall|j: int| 0 <= j < summaries_of(recs).len() implies {
        let s = #[trigger] summaries_of(recs)[j];
        &&& s.kind == store_kind(s.name)
        &&& s.records == recs.filter(of_store(s.name)).len()
        &&& s.encrypted_payloads == recs.filter(encrypted_of_store(s.name)).len()
        &&& s.deleted == recs.filter(deleted_of_store(s.name)).len()
        &&& ((forall|i: int| 0 <= i < recs.len() ==> !((#[trigger] recs[i]).payload is Encrypted)) ==> s.encrypted_payloads == 0)
    } by {
        law_store_counts_count_matching_records(recs, store_names(recs)[j]);
    }
}

/// Read from the stored value, the fields each kind of record carries: a
/// conversation its `id` (also its conversation) and `name`; an event its `id`,
/// `conversation`, `time`, `type` and sender (`from`, else `sender`); a user its
/// `id` and `name`; a client its `id` and device label (`model`, else `class`,
/// else `label`). A record of no Wire role carries none.
pub proof fn law_record_fields_from_stored_value(x: IndexedDbRecord)
    requires
        x.value is V8,
    ensures
        ({
            let v = x.value->V8_0;
            let w = interpreted(x);
            match store_kind(store_name_of(x)) {
                WireRecordKind::Conversation => w.id == field_text(v, "id"@) && w.conversation == field_text(v, "id"@)
                    && w.name == field_text(v, "name"@) && w.sender is None && w.time is None && w.text is None,
                WireRecordKind::Event => w.id == field_text(v, "id"@) && w.conversation == field_text(
                    v,
                    "conversation"@,
                ) && w.time == field_text(v, "time"@) && w.message_type == field_text(v, "type"@) && w.sender
                    == first_field_text(v, "from"@, "sender"@) && w.name is None,
                WireRecordKind::User => w.id == field_text(v, "id"@) && w.name == field_text(v, "name"@)
                    && w.conversation is None && w.time is None && w.text is None,
                WireRecordKind::Client => w.id == field_text(v, "id"@) && w.name == match object_field(v, "model"@) {
                    Some(m) => value_text(m),
                    None => first_field_text(v, "class"@, "label"@),
                } && w.conversation is None && w.time is None && w.text is None,
                WireRecordKind::Unknown => w.id is None && w.conversation is None && w.name is None && w.time is None
                    && w.text is None,
            }
        }),
{
}

/// A record whose primary key holds `otr_key` is flagged as exposing the key,
/// and the flag ignores ASCII case: two keys equal up to ASCII case are flagged alike.
pub proof fn law_otr_key_is_found_in_any_case(r: WireRecordView, other: WireRecordView)
    ensures
        contains_run(r.primary_key, "otr_key"@) ==> names_otr_key(r),
        r.primary_key.map_values(|c: char| ascii_lower(c)) == other.primary_key.map_values(|c: char| ascii_lower(c))
            ==> (names_otr_key(r) <==> names_otr_key(other)),
{
    reveal_strlit("otr_key");
    assert(OTR_KEY_NAME@ == "otr_key"@);
    if contains_run(r.primary_key, "otr_key"@) {
        let n = "otr_key"@;
        let low = r.primary_key.map_values(|c: char| ascii_lower(c));
        let i = choose|i: int| 0 <= i && i + n.len() <= r.primary_key.len() && #[trigger] r.primary_key.subrange(i, i + n.len()) == n;
        assert forall|k: int| 0 <= k < n.len() implies low.subrange(i, i + n.len())[k] == n[k] by {
            assert(low.subrange(i, i + n.len())[k] == low[i + k]);
            assert(r.primary_key[i + k] == r.primary_key.subrange(i, i + n.len())[k]);
        }
        assert(low.subrange(i, i + n.len()) =~= n);
    }
}

/// Every name of [`store_names`] is the store of some record.
proof fn lemma_listed_store_has_record(recs: Seq<WireRecordView>, k: int)
    requires
        0 <= k < store_names(recs).len(),
    ensures
        exists|i: int| 0 <= i < recs.len() && #[trigger] recs[i].store == store_names(recs)[k],
    decreases recs.len(),
{
    let init = recs.drop_last();
    let names = store_names(init);
    if k < names.len() {
        assert(store_names(recs)[k] == names[k]);
        lemma_listed_store_has_record(init, k);
        let i = choose|i: int| 0 <= i < init.len() && #[trigger] init[i].store == names[k];
        assert(recs[i] == init[i]);
    } else {
        assert(recs[recs.len() - 1].store == store_names(recs)[k]);
    }
}

/// The roll-ups come in order of first appearance: for two summaries, some
/// record of the earlier one's store comes before every record of the later
/// one's store.
pub proof fn law_summaries_in_order_of_first_appearance(recs: Seq<WireRecordView>, j: int, k: int)
    requires
        0 <= j < k < summaries_of(recs).len(),
    ensures
        exists|i: int| {
            &&& 0 <= i < recs.len()
            &&& #[trigger] recs[i].store == summaries_of(recs)[j].name
            &&& forall|m: int| 0 <= m <= i ==> recs[m].store != summaries_of(recs)[k].name
        },
    decreases recs.len(),
{
    let init = recs.drop_last();
    let names = store_names(init);
    let all = store_names(recs);
    lemma_store_names_shape(recs);
    assert(summaries_of(recs)[j].name == all[j]);
    assert(summaries_of(recs)[k].name == all[k]);
    if k < names.len() {
        assert(all[j] == names[j] && all[k] == names[k]);
        assert(summaries_of(init)[j].name == names[j]);
        assert(summaries_of(init)[k].name == names[k]);
        law_summaries_in_order_of_first_appearance(init, j, k);
        let i = choose|i: int| {
            &&& 0 <= i < init.len()
            &&& #[trigger] init[i].store == summaries_of(init)[j].name
            &&& forall|m: int| 0 <= m <= i ==> init[m].store != summaries_of(init)[k].name
        };
        assert(recs[i] == init[i]);
        assert forall|m: int| 0 <= m <= i implies recs[m].store != all[k] by {
            assert(recs[m] == init[m]);
        }
    } else {
        // The later store is new with the last record: no earlier record has it.
        assert(all[j] == names[j]);
        lemma_listed_store_has_record(init, j);
        let i = choose|i: int| 0 <= i < init.len() && #[trigger] init[i].store == names[j];
        assert(recs[i] == init[i]);
        assert(!names.contains(all[k])) by {
            assert(all =~= names.push(recs.last().store));
        }
        assert forall|m: int| 0 <= m <= i implies recs[m].store != all[k] by {
            assert(recs[m] == init[m]);
            if init[m].store == all[k] {
                lemma_named_store_listed(init, m);
            }
        }
    }
}

/// A timeline is in order of stored time: no entry's time sorts after that of
/// an entry behind it.
pub proof fn law_timeline_is_in_time_order(recs: Seq<WireRecordView>, out: Seq<TimelineEntryView>, i: int, j: int)
    requires
        is_stable_chronological_sort(out, timeline_entries(recs)),
        0 <= i < j < out.len(),
    ensures
        lex_le(out[i].time, out[j].time),
{
}

} // verus!
