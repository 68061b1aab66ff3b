//! The fields of one entry: a map from field names to values that keeps the order in which the
//! names were first inserted.

use crate::vocabulary::FieldType;
use vstd::prelude::*;

verus! {

/// Whether no two entries stand under one key.
pub open spec fn distinct_keys(entries: Seq<(FieldType, Seq<char>)>) -> bool {
    forall|i: int, j: int|
        0 <= i < j < entries.len() ==> (#[trigger] entries[i]).0 != (#[trigger] entries[j]).0
}

/// The index of the first entry under `key`, or the number of entries where there is none.
pub open spec fn index_of(entries: Seq<(FieldType, Seq<char>)>, key: FieldType) -> int
    decreases entries.len(),
{
    if entries.len() == 0 || entries[0].0 == key {
        0
    } else {
        1 + index_of(entries.drop_first(), key)
    }
}

/// Whether an entry stands under `key`.
pub open spec fn has_key(entries: Seq<(FieldType, Seq<char>)>, key: FieldType) -> bool {
    index_of(entries, key) < entries.len()
}

/// The value under `key`.
pub open spec fn value_of(entries: Seq<(FieldType, Seq<char>)>, key: FieldType) -> Option<
    Seq<char>,
> {
    if has_key(entries, key) {
        Some(entries[index_of(entries, key)].1)
    } else {
        None
    }
}

/// The entries after `value` was put under `key`: in the place of the entry under `key` where
/// there is one, else at the end.
pub open spec fn with_entry(
    entries: Seq<(FieldType, Seq<char>)>,
    key: FieldType,
    value: Seq<char>,
) -> Seq<(FieldType, Seq<char>)> {
    if has_key(entries, key) {
        entries.update(index_of(entries, key), (key, value))
    } else {
        entries.push((key, value))
    }
}

/// The view of a value that may be missing.
pub open spec fn text_of(value: Option<&String>) -> Option<Seq<char>> {
    match value {
        Some(s) => Some(s@),
        None => None,
    }
}

/// `index_of` is in range, points at an entry under `key` unless it is the length, and no
/// entry before it stands under `key`.
pub proof fn lemma_index_of(entries: Seq<(FieldType, Seq<char>)>, key: FieldType)
    ensures
        0 <= index_of(entries, key) <= entries.len(),
        has_key(entries, key) ==> entries[index_of(entries, key)].0 == key,
        forall|j: int| 0 <= j < index_of(entries, key) ==> (#[trigger] entries[j]).0 != key,
    decreases entries.len(),
{
    if entries.len() == 0 || entries[0].0 == key {
    } else {
        let rest = entries.drop_first();
        lemma_index_of(rest, key);
        assert forall|j: int| 0 <= j < index_of(entries, key) implies (#[trigger] entries[j]).0
            != key by {
            if j > 0 {
                assert(entries[j] == rest[j - 1]);
            }
        }
    }
}

/// An index that holds `key`, with no `key` before it, or the length with no `key` at all, is
/// the index of `key`.
pub proof fn lemma_index_of_is(entries: Seq<(FieldType, Seq<char>)>, key: FieldType, p: int)
    requires
        0 <= p <= entries.len(),
        p < entries.len() ==> entries[p].0 == key,
        forall|j: int| 0 <= j < p ==> (#[trigger] entries[j]).0 != key,
    ensures
        index_of(entries, key) == p,
{
    lemma_index_of(entries, key);
    let q = index_of(entries, key);
    if q < p {
        assert(entries[q].0 == key);
    } else if p < q {
        assert(entries[p].0 != key);
    }
}

/// Putting a value under a key keeps the keys distinct, sets the value under that key and
/// leaves the values under all others.
pub proof fn lemma_with_entry(
    entries: Seq<(FieldType, Seq<char>)>,
    key: FieldType,
    value: Seq<char>,
)
    requires
        distinct_keys(entries),
    ensures
        distinct_keys(with_entry(entries, key, value)),
        value_of(with_entry(entries, key, value), key) == Some(value),
        forall|other: FieldType|
            other != key ==> #[trigger] value_of(with_entry(entries, key, value), other)
                == value_of(entries, other),
{
    let after = with_entry(entries, key, value);
    let p = index_of(entries, key);
    lemma_index_of(entries, key);
    assert(after[p] == (key, value));
    assert forall|i: int, j: int| 0 <= i < j < after.len() implies (#[trigger] after[i]).0 != (
    #[trigger] after[j]).0 by {
        if p < entries.len() {
            assert(after[i].0 == entries[i].0 && after[j].0 == entries[j].0);
        } else if j < entries.len() {
            assert(after[i] == entries[i] && after[j] == entries[j]);
        } else {
            assert(after[i] == entries[i]);
        }
    }
    assert forall|j: int| 0 <= j < p implies (#[trigger] after[j]).0 != key by {
        assert(after[j].0 == entries[j].0);
    }
    lemma_index_of_is(after, key, p);
    assert forall|other: FieldType| other != key implies #[trigger] value_of(after, other)
        == value_of(entries, other) by {
        let q = index_of(entries, other);
        lemma_index_of(entries, other);
        if q < entries.len() {
            assert(q != p);
            assert(after[q] == entries[q]);
            assert forall|j: int| 0 <= j < q implies (#[trigger] after[j]).0 != other by {
                assert(after[j].0 == entries[j].0);
            }
            lemma_index_of_is(after, other, q);
        } else {
            assert forall|j: int| 0 <= j < after.len() implies (#[trigger] after[j]).0
                != other by {
                if j < entries.len() {
                    assert(after[j].0 == entries[j].0);
                }
            }
            lemma_index_of_is(after, other, after.len() as int);
        }
    }
}

/// The entries of a map, each value by its characters.
spec fn entry_views(entries: Seq<(FieldType, String)>) -> Seq<(FieldType, Seq<char>)> {
    entries.map_values(|e: (FieldType, String)| (e.0, e.1@))
}

/// A map from field names to their values. Each name stands once; the entries keep the order
/// in which their names were first inserted.
#[derive(Debug)]
pub struct FieldMap {
    entries: Vec<(FieldType, String)>,
}

impl View for FieldMap {
    type V = Seq<(FieldType, Seq<char>)>;

    /// The entries in their order, each value by its characters.
    closed spec fn view(&self) -> Seq<(FieldType, Seq<char>)> {
        entry_views(self.entries@)
    }
}

impl FieldMap {
    /// Whether each name stands once. `new` makes such a map, and `insert` and `clear` keep it
    /// so.
    pub open spec fn well_formed(&self) -> bool {
        distinct_keys(self@)
    }

    /// The empty map.
    pub fn new() -> (m: FieldMap)
        ensures
            m@ == Seq::<(FieldType, Seq<char>)>::empty(),
            m.well_formed(),
    {
        let m = FieldMap { entries: Vec::new() };
        assert(m@ =~= Seq::<(FieldType, Seq<char>)>::empty());
        m
    }

    /// The number of entries.
    pub fn len(&self) -> (n: usize)
        ensures
            n == self@.len(),
    {
        self.entries.len()
    }

    /// The key of the entry at index `i`.
    pub fn key_at(&self, i: usize) -> (key: FieldType)
        requires
            i < self@.len(),
        ensures
            key == self@[i as int].0,
    {
        self.entries[i].0
    }

    /// The value of the entry at index `i`.
    pub fn value_at(&self, i: usize) -> (value: &String)
        requires
            i < self@.len(),
        ensures
            value@ == self@[i as int].1,
    {
        &self.entries[i].1
    }

    /// The index of the entry under `key`, or the number of entries where there is none.
    pub fn position(&self, key: FieldType) -> (p: usize)
        ensures
            p == index_of(self@, key),
    {
        let mut i: usize = 0;
        while i < self.entries.len() && self.entries[i].0 != key
            invariant
                i <= self.entries.len(),
                self@.len() == self.entries.len(),
                forall|j: int| 0 <= j < i ==> (#[trigger] self@[j]).0 != key,
            decreases self.entries.len() - i,
        {
            i += 1;
        }
        proof {
            lemma_index_of_is(self@, key, i as int);
        }
        i
    }

    /// The value under `key`.
    pub fn get(&self, key: &FieldType) -> (value: Option<&String>)
        ensures
            text_of(value) == value_of(self@, *key),
    {
        let p = self.position(*key);
        if p < self.entries.len() {
            Some(&self.entries[p].1)
        } else {
            None
        }
    }

    /// Puts `value` under `key`: in the place of the value that stood there, or at the end.
    pub fn insert(&mut self, key: FieldType, value: String)
        ensures
            final(self)@ == with_entry(old(self)@, key, value@),
            old(self).well_formed() ==> final(self).well_formed(),
    {
        proof {
            if self.well_formed() {
                lemma_with_entry(self@, key, value@);
            }
        }
        let p = self.position(key);
        if p < self.entries.len() {
            self.entries.set(p, (key, value));
        } else {
            self.entries.push((key, value));
        }
        assert(self@ =~= with_entry(old(self)@, key, value@));
    }

    /// Removes every entry.
    pub fn clear(&mut self)
        ensures
            final(self)@ == Seq::<(FieldType, Seq<char>)>::empty(),
    {
        self.entries.clear();
        assert(self@ =~= Seq::<(FieldType, Seq<char>)>::empty());
    }
}

impl Clone for FieldMap {
    fn clone(&self) -> (m: FieldMap)
        ensures
            m@ == self@,
    {
        let mut entries: Vec<(FieldType, String)> = Vec::new();
        let mut i: usize = 0;
        while i < self.entries.len()
            invariant
                i <= self.entries.len(),
                entry_views(entries@) == self@.take(i as int),
            decreases self.entries.len() - i,
        {
            let ghost before = entries@;
            entries.push((self.entries[i].0, self.entries[i].1.clone()));
            assert(entry_views(entries@) =~= entry_views(before).push(self@[i as int]));
            assert(self@.take(i + 1) =~= self@.take(i as int).push(self@[i as int]));
            i += 1;
        }
        assert(self@.take(i as int) == self@);
        FieldMap { entries }
    }
}

} // verus!
