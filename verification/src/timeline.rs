//! A chronological view of the Wire event records.
//!
//! Only event records with a stored `time` participate. Entries carry the
//! cleartext metadata and the payload state, so an encrypted message still
//! appears on the timeline (with its body marked unrecoverable) rather than
//! vanishing.

use vstd::prelude::*;
use crate::idb::opt_text;
use crate::record::{
    PayloadState, PayloadView, WireRecord, WireRecordKind, WireRecordView, WireStore, record_views,
};
use crate::text::{
    lex_le, text_le, lemma_lex_le_antisymmetric, lemma_lex_le_reflexive, lemma_lex_le_total,
    lemma_lex_le_transitive,
};

verus! {

/// One entry in the reconstructed Wire timeline.
#[non_exhaustive]
#[derive(Debug, PartialEq, Eq)]
pub struct TimelineEntry {
    /// The event time as stored (ISO-8601 string).
    pub time: String,
    /// The conversation the event belongs to.
    pub conversation: Option<String>,
    /// The sender/author.
    pub sender: Option<String>,
    /// The Wire event type.
    pub message_type: Option<String>,
    /// Whether the body is cleartext, encrypted, or undecodable.
    pub payload: PayloadState,
    /// `true` if this event is a recovered deletion tombstone.
    pub deleted: bool,
}

/// The abstract content of a [`TimelineEntry`].
pub struct TimelineEntryView {
    pub time: Seq<char>,
    pub conversation: Option<Seq<char>>,
    pub sender: Option<Seq<char>>,
    pub message_type: Option<Seq<char>>,
    pub payload: PayloadView,
    pub deleted: bool,
}

impl View for TimelineEntry {
    type V = TimelineEntryView;

    open spec fn view(&self) -> TimelineEntryView {
        TimelineEntryView {
            time: self.time@,
            conversation: opt_text(self.conversation),
            sender: opt_text(self.sender),
            message_type: opt_text(self.message_type),
            payload: self.payload@,
            deleted: self.deleted,
        }
    }
}

/// The timeline entry of an event record; `None` for a record with no time.
pub open spec fn entry_of(r: WireRecordView) -> Option<TimelineEntryView> {
    match r.time {
        Some(t) => Some(
            TimelineEntryView {
                time: t,
                conversation: r.conversation,
                sender: r.sender,
                message_type: r.message_type,
                payload: r.payload,
                deleted: r.deleted,
            },
        ),
        None => None,
    }
}

/// The entries the timeline is built from: one per event record with a time,
/// in source order.
pub open spec fn timeline_entries(recs: Seq<WireRecordView>) -> Seq<TimelineEntryView> {
    recs.filter_map(
        |r: WireRecordView|
            if r.kind == WireRecordKind::Event {
                entry_of(r)
            } else {
                None
            },
    )
}

/// `true` when the entries are in chronological order of their stored times.
pub open spec fn is_chronological(s: Seq<TimelineEntryView>) -> bool {
    forall|i: int, j: int| 0 <= i < j < s.len() ==> lex_le(#[trigger] s[i].time, #[trigger] s[j].time)
}

/// The predicate "stored at time `t`".
pub open spec fn time_is(t: Seq<char>) -> spec_fn(TimelineEntryView) -> bool {
    |e: TimelineEntryView| e.time == t
}

/// The entries of `s` stored at time `t`, in their order in `s`.
pub open spec fn at_time(s: Seq<TimelineEntryView>, t: Seq<char>) -> Seq<TimelineEntryView> {
    s.filter(time_is(t))
}

/// The abstract entries of a timeline.
pub open spec fn entry_views(s: Seq<TimelineEntry>) -> Seq<TimelineEntryView> {
    s.map_values(|e: TimelineEntry| e@)
}

/// `out` is `input` sorted chronologically, keeping entries with the same time
/// in their input order.
pub open spec fn is_stable_chronological_sort(out: Seq<TimelineEntryView>, input: Seq<TimelineEntryView>) -> bool {
    &&& is_chronological(out)
    &&& forall|t: Seq<char>| #[trigger] at_time(out, t) == at_time(input, t)
}

impl Clone for TimelineEntry {
    fn clone(&self) -> (copy: Self)
        ensures
            copy == *self,
    {
        TimelineEntry {
            time: self.time.clone(),
            conversation: self.conversation.clone(),
            sender: self.sender.clone(),
            message_type: self.message_type.clone(),
            payload: self.payload.clone(),
            deleted: self.deleted,
        }
    }
}

/// Build a timeline entry for an event record, or `None` when it has no `time`.
pub fn entry_for(r: &WireRecord) -> (entry: Option<TimelineEntry>)
    ensures
        match entry {
            Some(e) => entry_of(r@) == Some(e@),
            None => entry_of(r@) is None,
        },
{
    match &r.time {
        Some(t) => Some(
            TimelineEntry {
                time: t.clone(),
                conversation: r.conversation.clone(),
                sender: r.sender.clone(),
                message_type: r.message_type.clone(),
                payload: r.payload.clone(),
                deleted: r.deleted,
            },
        ),
        None => None,
    }
}

/// The entries at positions `idx` of `entries`, in the order of `idx`.
pub open spec fn pick(entries: Seq<TimelineEntryView>, idx: Seq<usize>) -> Seq<TimelineEntryView> {
    idx.map_values(|k: usize| entries[k as int])
}

/// Every position in `idx` is a position of a sequence of length `n`.
pub open spec fn positions_below(idx: Seq<usize>, n: nat) -> bool {
    forall|k: int| 0 <= k < idx.len() ==> #[trigger] idx[k] < n
}

/// The entries of `s` stored at a time `t` are those of `s` without its last
/// entry, followed by that entry when it is stored at `t`.
pub proof fn lemma_at_time_push(s: Seq<TimelineEntryView>, e: TimelineEntryView, t: Seq<char>)
    ensures
        at_time(s.push(e), t) == if e.time == t { at_time(s, t).push(e) } else { at_time(s, t) },
{
    reveal_with_fuel(Seq::filter, 1);
    assert(s.push(e).drop_last() =~= s);
}

/// A stable chronological sort has one result: two chronological sequences that
/// hold, at every time, the same entries in the same order are equal.
pub proof fn lemma_stable_sort_unique(a: Seq<TimelineEntryView>, b: Seq<TimelineEntryView>)
    requires
        is_chronological(a),
        is_chronological(b),
        forall|t: Seq<char>| #[trigger] at_time(a, t) == at_time(b, t),
    ensures
        a == b,
    decreases a.len(),
{
    if a.len() == 0 || b.len() == 0 {
        if a.len() > 0 {
            a.lemma_filter_contains(time_is(a[0].time), 0);
            assert(at_time(a, a[0].time) == at_time(b, a[0].time));
            b.lemma_filter_contains_rev(time_is(a[0].time), a[0]);
        }
        if b.len() > 0 {
            b.lemma_filter_contains(time_is(b[0].time), 0);
            assert(at_time(a, b[0].time) == at_time(b, b[0].time));
            a.lemma_filter_contains_rev(time_is(b[0].time), b[0]);
        }
        assert(a =~= b);
    } else {
        let x = a.last();
        let y = b.last();
        let a0 = a.drop_last();
        let b0 = b.drop_last();
        assert(a =~= a0.push(x));
        assert(b =~= b0.push(y));
        // The last entry of each is stored in the other, so neither time is
        // later than the other.
        a.lemma_filter_contains(time_is(x.time), a.len() - 1);
        assert(at_time(a, x.time) == at_time(b, x.time));
        b.lemma_filter_contains_rev(time_is(x.time), x);
        let k = choose|k: int| 0 <= k < b.len() && b[k] == x;
        if k < b.len() - 1 {
            assert(lex_le(b[k].time, b[b.len() - 1].time));
        } else {
            lemma_lex_le_reflexive(x.time);
        }
        b.lemma_filter_contains(time_is(y.time), b.len() - 1);
        assert(at_time(a, y.time) == at_time(b, y.time));
        a.lemma_filter_contains_rev(time_is(y.time), y);
        let m = choose|m: int| 0 <= m < a.len() && a[m] == y;
        if m < a.len() - 1 {
            assert(lex_le(a[m].time, a[a.len() - 1].time));
        } else {
            lemma_lex_le_reflexive(y.time);
        }
        lemma_lex_le_antisymmetric(x.time, y.time);
        let t = x.time;
        lemma_at_time_push(a0, x, t);
        lemma_at_time_push(b0, y, t);
        assert(at_time(a0, t).push(x) == at_time(b0, t).push(y));
        assert(x == at_time(a0, t).push(x).last());
        assert(y == at_time(b0, t).push(y).last());
        assert(at_time(a0, t) =~= at_time(a0, t).push(x).drop_last());
        assert(at_time(b0, t) =~= at_time(b0, t).push(y).drop_last());
        assert forall|s: Seq<char>| #[trigger] at_time(a0, s) == at_time(b0, s) by {
            lemma_at_time_push(a0, x, s);
            lemma_at_time_push(b0, y, s);
            assert(at_time(a, s) == at_time(b, s));
        }
        assert forall|i: int, j: int| 0 <= i < j < a0.len() implies lex_le(#[trigger] a0[i].time, #[trigger] a0[j].time) by {
            assert(a0[i] == a[i] && a0[j] == a[j]);
        }
        assert forall|i: int, j: int| 0 <= i < j < b0.len() implies lex_le(#[trigger] b0[i].time, #[trigger] b0[j].time) by {
            assert(b0[i] == b[i] && b0[j] == b[j]);
        }
        lemma_stable_sort_unique(a0, b0);
    }
}

/// Merge two chronological runs of positions into one, taking from `left` on
/// equal times, so the entries of each time keep their order: those of `left`
/// first, then those of `right`.
fn merge_runs(entries: &Vec<TimelineEntry>, left: Vec<usize>, right: Vec<usize>) -> (merged: Vec<usize>)
    requires
        positions_below(left@, entries@.len()),
        positions_below(right@, entries@.len()),
        is_chronological(pick(entry_views(entries@), left@)),
        is_chronological(pick(entry_views(entries@), right@)),
    ensures
        merged@.len() == left@.len() + right@.len(),
        positions_below(merged@, entries@.len()),
        is_chronological(pick(entry_views(entries@), merged@)),
        forall|t: Seq<char>| #[trigger] at_time(pick(entry_views(entries@), merged@), t)
            == at_time(pick(entry_views(entries@), left@), t) + at_time(pick(entry_views(entries@), right@), t),
{
    let ghost ev = entry_views(entries@);
    let ghost a = pick(ev, left@);
    let ghost b = pick(ev, right@);
    let mut merged: Vec<usize> = Vec::new();
    let mut i: usize = 0;
    let mut j: usize = 0;
    proof {
        assert forall|t: Seq<char>| #[trigger] at_time(pick(ev, merged@), t) == at_time(a.take(0), t) + at_time(b.take(0), t) by {
            reveal_with_fuel(Seq::filter, 1);
            assert(pick(ev, merged@) =~= Seq::<TimelineEntryView>::empty());
            assert(a.take(0) =~= Seq::<TimelineEntryView>::empty());
            assert(b.take(0) =~= Seq::<TimelineEntryView>::empty());
            assert(at_time(Seq::<TimelineEntryView>::empty(), t) =~= Seq::<TimelineEntryView>::empty());
        }
    }
    while i < left.len() || j < right.len()
        invariant
            ev == entry_views(entries@),
            a == pick(ev, left@),
            b == pick(ev, right@),
            positions_below(left@, entries@.len()),
            positions_below(right@, entries@.len()),
            is_chronological(a),
            is_chronological(b),
            i <= left@.len(),
            j <= right@.len(),
            merged@.len() == i + j,
            positions_below(merged@, entries@.len()),
            is_chronological(pick(ev, merged@)),
            forall|k: int| 0 <= k < merged@.len() ==> (i < left@.len() ==> lex_le(#[trigger] pick(ev, merged@)[k].time, a[i as int].time)),
            forall|k: int| 0 <= k < merged@.len() ==> (j < right@.len() ==> lex_le(#[trigger] pick(ev, merged@)[k].time, b[j as int].time)),
            forall|k: int| 0 <= k < j ==> (i < left@.len() ==> !lex_le(a[i as int].time, #[trigger] b[k].time)),
            forall|t: Seq<char>| #[trigger] at_time(pick(ev, merged@), t) == at_time(a.take(i as int), t) + at_time(b.take(j as int), t),
        decreases left@.len() + right@.len() - i - j,
    {
        let ghost m = pick(ev, merged@);
        let take_left = if i < left.len() && j < right.len() {
            text_le(entries[left[i]].time.as_str(), entries[right[j]].time.as_str())
        } else {
            i < left.len()
        };
        proof {
            if i < left@.len() {
                assert(a[i as int] == ev[left@[i as int] as int]);
                assert(ev[left@[i as int] as int] == entries@[left@[i as int] as int]@);
            }
            if j < right@.len() {
                assert(b[j as int] == ev[right@[j as int] as int]);
                assert(ev[right@[j as int] as int] == entries@[right@[j as int] as int]@);
            }
        }
        if take_left {
            let ghost x = a[i as int];
            merged.push(left[i]);
            proof {
                assert(pick(ev, merged@) =~= m.push(x));
                assert(a.take(i + 1) =~= a.take(i as int).push(x));
                assert forall|k: int| 0 <= k < merged@.len() implies lex_le(#[trigger] pick(ev, merged@)[k].time, x.time) by {
                    if k < m.len() {
                        assert(pick(ev, merged@)[k] == m[k]);
                    } else {
                        lemma_lex_le_reflexive(x.time);
                    }
                }
                assert forall|k: int| 0 <= k < merged@.len() && i + 1 < left@.len() implies lex_le(#[trigger] pick(ev, merged@)[k].time, a[i + 1].time) by {
                    if i + 1 < left@.len() {
                        lemma_lex_le_transitive(pick(ev, merged@)[k].time, x.time, a[i + 1].time);
                    }
                }
                assert forall|k: int| 0 <= k < merged@.len() && j < right@.len() implies lex_le(#[trigger] pick(ev, merged@)[k].time, b[j as int].time) by {
                    if k < m.len() {
                        assert(pick(ev, merged@)[k] == m[k]);
                    }
                }
                assert forall|k: int| 0 <= k < j && i + 1 < left@.len() implies !lex_le(a[i + 1].time, #[trigger] b[k].time) by {
                    if i + 1 < left@.len() && lex_le(a[i + 1].time, b[k].time) {
                        lemma_lex_le_transitive(a[i as int].time, a[i + 1].time, b[k].time);
                    }
                }
                assert forall|t: Seq<char>| #[trigger] at_time(pick(ev, merged@), t) == at_time(a.take(i + 1), t) + at_time(b.take(j as int), t) by {
                    lemma_at_time_push(m, x, t);
                    lemma_at_time_push(a.take(i as int), x, t);
                    if x.time == t {
                        assert forall|k: int| 0 <= k < b.take(j as int).len() implies !(#[trigger] time_is(t)(b.take(j as int)[k])) by {
                            lemma_lex_le_reflexive(x.time);
                            assert(b.take(j as int)[k] == b[k]);
                        }
                        b.take(j as int).lemma_all_neg_filter_empty(time_is(t));
                        assert(at_time(b.take(j as int), t) =~= Seq::<TimelineEntryView>::empty());
                        assert(at_time(m, t) =~= at_time(a.take(i as int), t));
                    }
                }
            }
            i = i + 1;
        } else {
            let ghost y = b[j as int];
            merged.push(right[j]);
            proof {
                if i < left@.len() {
                    lemma_lex_le_total(a[i as int].time, y.time);
                }
                assert(pick(ev, merged@) =~= m.push(y));
                assert(b.take(j + 1) =~= b.take(j as int).push(y));
                assert forall|k: int| 0 <= k < merged@.len() implies lex_le(#[trigger] pick(ev, merged@)[k].time, y.time) by {
                    if k < m.len() {
                        assert(pick(ev, merged@)[k] == m[k]);
                    } else {
                        lemma_lex_le_reflexive(y.time);
                    }
                }
                assert forall|k: int| 0 <= k < merged@.len() && j + 1 < right@.len() implies lex_le(#[trigger] pick(ev, merged@)[k].time, b[j + 1].time) by {
                    if j + 1 < right@.len() {
                        lemma_lex_le_transitive(pick(ev, merged@)[k].time, y.time, b[j + 1].time);
                    }
                }
                assert forall|k: int| 0 <= k < merged@.len() && i < left@.len() implies lex_le(#[trigger] pick(ev, merged@)[k].time, a[i as int].time) by {
                    if k < m.len() {
                        assert(pick(ev, merged@)[k] == m[k]);
                    }
                }
                assert forall|k: int| 0 <= k < j + 1 && i < left@.len() implies !lex_le(a[i as int].time, #[trigger] b[k].time) by {
                }
                assert forall|t: Seq<char>| #[trigger] at_time(pick(ev, merged@), t) == at_time(a.take(i as int), t) + at_time(b.take(j + 1), t) by {
                    lemma_at_time_push(m, y, t);
                    lemma_at_time_push(b.take(j as int), y, t);
                }
            }
            j = j + 1;
        }
    }
    proof {
        assert(a.take(left@.len() as int) =~= a);
        assert(b.take(right@.len() as int) =~= b);
    }
    merged
}

/// Sort the positions `lo..hi` of `entries` by stored time, keeping entries with
/// the same time in their order.
fn sort_positions(entries: &Vec<TimelineEntry>, lo: usize, hi: usize) -> (sorted: Vec<usize>)
    requires
        lo <= hi <= entries@.len(),
    ensures
        sorted@.len() == hi - lo,
        positions_below(sorted@, entries@.len()),
        is_stable_chronological_sort(
            pick(entry_views(entries@), sorted@),
            entry_views(entries@).subrange(lo as int, hi as int),
        ),
    decreases hi - lo,
{
    let ghost ev = entry_views(entries@);
    if hi - lo <= 1 {
        let mut single: Vec<usize> = Vec::new();
        if hi - lo == 1 {
            single.push(lo);
        }
        proof {
            assert(pick(ev, single@) =~= ev.subrange(lo as int, hi as int));
        }
        return single;
    }
    let mid = lo + (hi - lo) / 2;
    let left = sort_positions(entries, lo, mid);
    let right = sort_positions(entries, mid, hi);
    let merged = merge_runs(entries, left, right);
    proof {
        let whole = ev.subrange(lo as int, hi as int);
        let first = ev.subrange(lo as int, mid as int);
        let second = ev.subrange(mid as int, hi as int);
        assert(whole =~= first + second);
        assert forall|t: Seq<char>| #[trigger] at_time(pick(ev, merged@), t) == at_time(whole, t) by {
            Seq::filter_distributes_over_add(first, second, time_is(t));
        }
    }
    merged
}

/// Build the chronological timeline of event records from an interpreted store.
///
/// Events are ordered by their stored `time` (ISO-8601 strings sort
/// lexicographically in chronological order); events with the same time keep
/// their store order; an event with no `time` is omitted.
pub fn timeline(store: &WireStore) -> (entries: Vec<TimelineEntry>)
    ensures
        is_stable_chronological_sort(entry_views(entries@), timeline_entries(record_views(store.records@))),
        entries@.len() == timeline_entries(record_views(store.records@)).len(),
{
    let ghost recs = record_views(store.records@);
    let mut events: Vec<TimelineEntry> = Vec::new();
    let mut i: usize = 0;
    proof {
        assert(recs.take(0) =~= Seq::<WireRecordView>::empty());
        assert(entry_views(events@) =~= Seq::<TimelineEntryView>::empty());
        assert(timeline_entries(Seq::<WireRecordView>::empty()) =~= Seq::<TimelineEntryView>::empty());
    }
    while i < store.records.len()
        invariant
            recs == record_views(store.records@),
            i <= store.records@.len(),
            entry_views(events@) == timeline_entries(recs.take(i as int)),
        decreases store.records@.len() - i,
    {
        let r = &store.records[i];
        let ghost before = events@;
        proof {
            assert(recs.take(i + 1).drop_last() =~= recs.take(i as int));
            assert(recs.take(i + 1).last() == r@);
        }
        let candidate = if r.kind == WireRecordKind::Event { entry_for(r) } else { None };
        match candidate {
            Some(e) => {
                let ghost added = e@;
                events.push(e);
                proof {
                    assert(entry_views(events@) =~= entry_views(before).push(added));
                    assert(entry_views(events@) =~= timeline_entries(recs.take(i + 1)));
                }
            },
            None => {
                proof {
                    assert(timeline_entries(recs.take(i + 1)) =~= timeline_entries(recs.take(i as int)));
                }
            },
        }
        i = i + 1;
    }
    proof {
        assert(recs.take(store.records@.len() as int) =~= recs);
    }
    let order = sort_positions(&events, 0, events.len());
    let mut entries: Vec<TimelineEntry> = Vec::new();
    let mut k: usize = 0;
    while k < order.len()
        invariant
            k <= order@.len(),
            positions_below(order@, events@.len()),
            entry_views(entries@) == pick(entry_views(events@), order@.take(k as int)),
        decreases order@.len() - k,
    {
        let e = events[order[k]].clone();
        let ghost before = entries@;
        proof {
            assert(e@ == entry_views(events@)[order@[k as int] as int]);
        }
        entries.push(e);
        proof {
            assert(entries@ =~= before.push(e));
            assert(entry_views(entries@) =~= entry_views(before).push(e@));
            assert(order@.take(k + 1) =~= order@.take(k as int).push(order@[k as int]));
            assert(pick(entry_views(events@), order@.take(k + 1)) =~= pick(entry_views(events@), order@.take(k as int)).push(
                entry_views(events@)[order@[k as int] as int],
            ));
            assert(entry_views(entries@) =~= pick(entry_views(events@), order@.take(k + 1)));
        }
        k = k + 1;
    }
    proof {
        assert(order@.take(order@.len() as int) =~= order@);
        assert(entry_views(events@).subrange(0, events@.len() as int) =~= entry_views(events@));
    }
    entries
}

} // verus!
