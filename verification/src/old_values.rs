//! The values that keys had before a transaction touched them.

use vstd::prelude::*;

use crate::bytes::same_bytes;
use crate::types::{Key, KeyView, TimeStamp};

verus! {

/// The value that a key had before, as far as the engine resolved it.
#[derive(Debug, PartialEq, Eq)]
pub enum OldValue {
    Value(Vec<u8>),
    /// The value is the one written at this timestamp.
    ValueTimeStamp(TimeStamp),
    /// There was no value.
    Absent,
    /// The value is to be looked for from this encoded position on.
    SeekWrite(Vec<u8>),
}

/// What an [`OldValue`] holds.
pub enum OldValueView {
    Value(Seq<u8>),
    ValueTimeStamp(TimeStamp),
    Absent,
    SeekWrite(Seq<u8>),
}

impl DeepView for OldValue {
    type V = OldValueView;

    open spec fn deep_view(&self) -> OldValueView {
        match self {
            OldValue::Value(value) => OldValueView::Value(value@),
            OldValue::ValueTimeStamp(ts) => OldValueView::ValueTimeStamp(*ts),
            OldValue::Absent => OldValueView::Absent,
            OldValue::SeekWrite(position) => OldValueView::SeekWrite(position@),
        }
    }
}

/// What a mutation does to its key.
#[derive(Clone, Copy, Debug, PartialEq, Eq, Structural)]
pub enum MutationType {
    Put,
    Delete,
    Lock,
    Insert,
    Other,
}

/// One old value, with the key and the transaction that it belongs to.
#[derive(Debug, PartialEq, Eq)]
pub struct OldValueEntry {
    pub key: Key,
    pub start_ts: TimeStamp,
    pub old_value: OldValue,
    pub mutation_type: Option<MutationType>,
}

/// What an old value is found by: the encoded key and the timestamp of the transaction.
pub type OldValueKey = (Seq<u8>, TimeStamp);

/// What an [`OldValueEntry`] holds.
pub struct OldValueEntryView {
    pub key: KeyView,
    pub start_ts: TimeStamp,
    pub old_value: OldValueView,
    pub mutation_type: Option<MutationType>,
}

impl DeepView for OldValueEntry {
    type V = OldValueEntryView;

    open spec fn deep_view(&self) -> OldValueEntryView {
        OldValueEntryView {
            key: self.key.deep_view(),
            start_ts: self.start_ts,
            old_value: self.old_value.deep_view(),
            mutation_type: self.mutation_type,
        }
    }
}

/// Old values by encoded key and transaction.
pub type OldValuesView = Map<OldValueKey, OldValueEntryView>;

impl OldValueEntry {
    /// What this entry is found by.
    pub open spec fn found_by(self) -> OldValueKey {
        (self.key.deep_view().encoded, self.start_ts)
    }
}

/// No two entries are found by the same key.
pub open spec fn found_once(entries: Seq<OldValueEntry>) -> bool {
    forall|i: int, j: int|
        0 <= i < j < entries.len() ==> (#[trigger] entries[i]).found_by()
            != (#[trigger] entries[j]).found_by()
}

/// The entry at index `i` is found by `key`.
pub open spec fn found_at(entries: Seq<OldValueEntry>, key: OldValueKey, i: int) -> bool {
    0 <= i < entries.len() && entries[i].found_by() == key
}

/// The entries as a map.
pub open spec fn entry_map(entries: Seq<OldValueEntry>) -> OldValuesView {
    Map::new(
        |key: OldValueKey| exists|i: int| found_at(entries, key, i),
        |key: OldValueKey| entries[choose|i: int| found_at(entries, key, i)].deep_view(),
    )
}

/// The old values of a write. A key's entry is the last one that was put in.
#[derive(Debug, PartialEq, Eq)]
pub struct OldValues {
    entries: Vec<OldValueEntry>,
}

impl View for OldValues {
    type V = OldValuesView;

    closed spec fn view(&self) -> OldValuesView {
        entry_map(self.entries@)
    }
}

impl OldValues {
    /// No key has two entries.
    pub closed spec fn wf(self) -> bool {
        found_once(self.entries@)
    }

    /// No old values.
    pub fn new() -> (r: OldValues)
        ensures
            r.wf(),
            r@ == OldValuesView::empty(),
    {
        let r = OldValues { entries: Vec::new() };
        assert(r@ =~= OldValuesView::empty());
        r
    }

    /// The entries, one for each key and transaction.
    pub fn entries(&self) -> (entries: &Vec<OldValueEntry>)
        requires
            self.wf(),
        ensures
            found_once(entries@),
            entry_map(entries@) == self@,
            forall|i: int, j: int|
                0 <= i < j < entries@.len() ==> (#[trigger] entries@[i]).key.deep_view().encoded
                    != (#[trigger] entries@[j]).key.deep_view().encoded || entries@[i].start_ts
                    != entries@[j].start_ts,
            forall|i: int|
                0 <= i < entries@.len() ==> self@.contains_pair(
                    (
                        (#[trigger] entries@[i]).key.deep_view().encoded,
                        entries@[i].start_ts,
                    ),
                    entries@[i].deep_view(),
                ),
            forall|encoded: Seq<u8>, start_ts: TimeStamp| #[trigger]
                self@.contains_key((encoded, start_ts)) ==> exists|i: int|
                    0 <= i < entries@.len() && (#[trigger] entries@[i]).key.deep_view().encoded
                        == encoded && entries@[i].start_ts == start_ts,
    {
        proof {
            let entries = self.entries@;
            assert forall|i: int| 0 <= i < entries.len() implies self@.contains_pair(
                ((#[trigger] entries[i]).key.deep_view().encoded, entries[i].start_ts),
                entries[i].deep_view(),
            ) by {
                lemma_lookup(entries, i);
            }
            assert forall|encoded: Seq<u8>, start_ts: TimeStamp| #[trigger]
                self@.contains_key((encoded, start_ts)) implies exists|i: int|
                0 <= i < entries.len() && (#[trigger] entries[i]).key.deep_view().encoded == encoded
                    && entries[i].start_ts == start_ts by {
                let i = choose|i: int| found_at(entries, (encoded, start_ts), i);
                assert(entries[i].key.deep_view().encoded == encoded);
            }
        }
        &self.entries
    }

    /// Drops all old values.
    pub fn clear(&mut self)
        ensures
            final(self).wf(),
            final(self)@ == OldValuesView::empty(),
    {
        self.entries.clear();
        assert(self@ =~= OldValuesView::empty());
    }

    /// The index of the entry for a key and a transaction.
    fn position(&self, key: &Key, start_ts: TimeStamp) -> (r: Option<usize>)
        ensures
            match r {
                Some(i) => found_at(
                    self.entries@,
                    (key.deep_view().encoded, start_ts),
                    i as int,
                ),
                None => forall|i: int|
                    !#[trigger] found_at(self.entries@, (key.deep_view().encoded, start_ts), i),
            },
    {
        let mut i: usize = 0;
        while i < self.entries.len()
            invariant
                i <= self.entries.len(),
                forall|j: int|
                    0 <= j < i ==> !#[trigger] found_at(
                        self.entries@,
                        (key.deep_view().encoded, start_ts),
                        j,
                    ),
            decreases self.entries.len() - i,
        {
            let entry = &self.entries[i];
            if entry.start_ts == start_ts && same_bytes(
                entry.key.as_encoded(),
                key.as_encoded(),
            ) {
                return Some(i);
            }
            i += 1;
        }
        None
    }

    /// Records the old value of a key for a transaction, in place of an earlier entry. An old value
    /// that the engine did not resolve is not recorded.
    pub fn insert_if_resolved(
        &mut self,
        key: Key,
        start_ts: TimeStamp,
        old_value: Option<OldValue>,
        mutation_type: Option<MutationType>,
    )
        requires
            old(self).wf(),
        ensures
            final(self).wf(),
            final(self)@ == with_old_value(
                old(self)@,
                key.deep_view(),
                start_ts,
                old_value.deep_view(),
                mutation_type,
            ),
            old_value is None ==> final(self)@ == old(self)@,
            old_value matches Some(old_value) ==> final(self)@ == old(self)@.insert(
                (key.deep_view().encoded, start_ts),
                OldValueEntryView {
                    key: key.deep_view(),
                    start_ts,
                    old_value: old_value.deep_view(),
                    mutation_type,
                },
            ),
    {
        let old_value = match old_value {
            Some(old_value) => old_value,
            None => {
                return ;
            },
        };
        let ghost found_by = (key.deep_view().encoded, start_ts);
        let position = self.position(&key, start_ts);
        let entry = OldValueEntry { key, start_ts, old_value, mutation_type };
        let ghost before = self.entries@;
        match position {
            Some(i) => {
                self.entries[i] = entry;
                proof {
                    lemma_replaced(before, i as int, entry);
                }
            },
            None => {
                self.entries.push(entry);
                proof {
                    lemma_added(before, entry);
                }
            },
        }
    }
}

/// Old values after that of one key was reported: an unresolved one changes nothing.
pub open spec fn with_old_value(
    old_values: OldValuesView,
    key: KeyView,
    start_ts: TimeStamp,
    old_value: Option<OldValueView>,
    mutation_type: Option<MutationType>,
) -> OldValuesView {
    match old_value {
        Some(old_value) => old_values.insert(
            (key.encoded, start_ts),
            OldValueEntryView { key, start_ts, old_value, mutation_type },
        ),
        None => old_values,
    }
}

/// With one entry a key, the map holds what the entry at any index says.
proof fn lemma_lookup(entries: Seq<OldValueEntry>, i: int)
    requires
        found_once(entries),
        0 <= i < entries.len(),
    ensures
        entry_map(entries).contains_key(entries[i].found_by()),
        entry_map(entries)[entries[i].found_by()] == entries[i].deep_view(),
{
    let key = entries[i].found_by();
    assert(found_at(entries, key, i));
    let chosen = choose|j: int| found_at(entries, key, j);
    assert(found_at(entries, key, chosen));
    assert(entries[chosen].found_by() == entries[i].found_by());
}

proof fn lemma_replaced(entries: Seq<OldValueEntry>, i: int, entry: OldValueEntry)
    requires
        found_once(entries),
        found_at(entries, entry.found_by(), i),
    ensures
        found_once(entries.update(i, entry)),
        entry_map(entries.update(i, entry)) == entry_map(entries).insert(
            entry.found_by(),
            entry.deep_view(),
        ),
{
    let after = entries.update(i, entry);
    assert(found_once(after));
    let left = entry_map(after);
    let right = entry_map(entries).insert(entry.found_by(), entry.deep_view());
    assert forall|key: OldValueKey| left.contains_key(key) == right.contains_key(key) by {
        if left.contains_key(key) {
            let j = choose|j: int| found_at(after, key, j);
            assert(found_at(entries, key, j));
        }
        if entry_map(entries).contains_key(key) {
            let j = choose|j: int| found_at(entries, key, j);
            assert(found_at(after, key, j));
        }
        if key == entry.found_by() {
            assert(found_at(after, key, i));
        }
    }
    assert forall|key: OldValueKey| left.contains_key(key) implies left[key] == right[key] by {
        let j = choose|j: int| found_at(after, key, j);
        lemma_lookup(after, j);
        if j != i {
            lemma_lookup(entries, j);
        }
    }
    assert(left =~= right);
}

proof fn lemma_added(entries: Seq<OldValueEntry>, entry: OldValueEntry)
    requires
        found_once(entries),
        forall|i: int| !#[trigger] found_at(entries, entry.found_by(), i),
    ensures
        found_once(entries.push(entry)),
        entry_map(entries.push(entry)) == entry_map(entries).insert(
            entry.found_by(),
            entry.deep_view(),
        ),
{
    let after = entries.push(entry);
    assert forall|i: int, j: int| 0 <= i < j < after.len() implies (#[trigger] after[i]).found_by()
        != (#[trigger] after[j]).found_by() by {
        assert(!found_at(entries, entry.found_by(), i));
    }
    let left = entry_map(after);
    let right = entry_map(entries).insert(entry.found_by(), entry.deep_view());
    assert forall|key: OldValueKey| left.contains_key(key) == right.contains_key(key) by {
        if left.contains_key(key) {
            let j = choose|j: int| found_at(after, key, j);
            if j < entries.len() {
                assert(found_at(entries, key, j));
            }
        }
        if entry_map(entries).contains_key(key) {
            let j = choose|j: int| found_at(entries, key, j);
            assert(found_at(after, key, j));
        }
        if key == entry.found_by() {
            assert(found_at(after, key, entries.len() as int));
        }
    }
    assert forall|key: OldValueKey| left.contains_key(key) implies left[key] == right[key] by {
        let j = choose|j: int| found_at(after, key, j);
        lemma_lookup(after, j);
        if j < entries.len() {
            lemma_lookup(entries, j);
            assert(!found_at(entries, entry.found_by(), j));
        }
    }
    assert(left =~= right);
}

} // verus!
