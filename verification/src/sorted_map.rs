//! A map from strings to values, kept in the order in which its keys sort.
use crate::text;
use vstd::prelude::*;

verus! {

/// A map keyed by strings whose entries are visited in key order.
pub struct SortedMap<V> {
    entries: Vec<(String, V)>,
}

/// Whether the keys of `entries` sort strictly ascending.
pub open spec fn keys_ascend<V>(entries: Seq<(String, V)>) -> bool {
    forall|i: int, j: int|
        0 <= i < j < entries.len() ==> text::text_less(
            (#[trigger] entries[i]).0@,
            (#[trigger] entries[j]).0@,
        )
}

/// Whether `key` is the key of some entry.
pub open spec fn has_key<V>(entries: Seq<(String, V)>, key: Seq<char>) -> bool {
    exists|i: int| 0 <= i < entries.len() && (#[trigger] entries[i]).0@ == key
}

/// The position of the entry whose key is `key`.
pub open spec fn key_position<V>(entries: Seq<(String, V)>, key: Seq<char>) -> int {
    choose|i: int| 0 <= i < entries.len() && (#[trigger] entries[i]).0@ == key
}

/// The entries read as a map.
pub open spec fn entries_map<V>(entries: Seq<(String, V)>) -> Map<Seq<char>, V> {
    Map::new(|key: Seq<char>| has_key(entries, key), |key: Seq<char>| entries[key_position(entries, key)].1)
}

proof fn lemma_position_unique<V>(entries: Seq<(String, V)>, i: int)
    requires
        keys_ascend(entries),
        0 <= i < entries.len(),
    ensures
        has_key(entries, entries[i].0@),
        key_position(entries, entries[i].0@) == i,
{
    let j = key_position(entries, entries[i].0@);
    assert(entries[i].0@ == entries[i].0@);
    text::lemma_text_total(entries[i].0@, entries[i].0@);
    if i < j {
        assert(text::text_less(entries[i].0@, entries[j].0@));
    } else if j < i {
        assert(text::text_less(entries[j].0@, entries[i].0@));
    }
}

impl<V> View for SortedMap<V> {
    type V = Map<Seq<char>, V>;

    closed spec fn view(&self) -> Map<Seq<char>, V> {
        entries_map(self.entries@)
    }
}

impl<V> SortedMap<V> {
    #[verifier::type_invariant]
    spec fn ordered(self) -> bool {
        keys_ascend(self.entries@)
    }

    /// The keys in order.
    pub closed spec fn keys(&self) -> Seq<Seq<char>> {
        self.entries@.map_values(|entry: (String, V)| entry.0@)
    }

    /// What is known of any map: its keys are exactly the keys it visits, each
    /// once and in ascending order.
    pub open spec fn keys_listed(&self) -> bool {
        &&& forall|i: int| 0 <= i < self.keys().len() ==> self@.dom().contains(#[trigger] self.keys()[i])
        &&& forall|key: Seq<char>| #[trigger] self@.dom().contains(key) ==> self.keys().contains(key)
        &&& forall|i: int, j: int|
            0 <= i < j < self.keys().len() ==> text::text_less(
                #[trigger] self.keys()[i],
                #[trigger] self.keys()[j],
            )
    }

    proof fn lemma_listed(&self)
        requires
            keys_ascend(self.entries@),
        ensures
            self.keys_listed(),
            self.keys().len() == self.entries@.len(),
            forall|i: int| 0 <= i < self.entries@.len() ==> self.keys()[i] == (#[trigger] self.entries@[i]).0@,
            forall|i: int|
                0 <= i < self.entries@.len() ==> self@[(#[trigger] self.entries@[i]).0@] == self.entries@[i].1,
    {
        assert forall|i: int| 0 <= i < self.entries@.len() implies {
            &&& self@.dom().contains((#[trigger] self.entries@[i]).0@)
            &&& self@[self.entries@[i].0@] == self.entries@[i].1
        } by {
            lemma_position_unique(self.entries@, i);
        }
        assert forall|key: Seq<char>| #[trigger] self@.dom().contains(key) implies self.keys().contains(key) by {
            let i = key_position(self.entries@, key);
            assert(self.keys()[i] == key);
        }
    }

    /// The empty map.
    pub fn new() -> (map: Self)
        ensures
            map@ == Map::<Seq<char>, V>::empty(),
            map.keys() == Seq::<Seq<char>>::empty(),
            map.keys_listed(),
    {
        let map = SortedMap { entries: Vec::new() };
        proof {
            map.lemma_listed();
            assert(map@ =~= Map::<Seq<char>, V>::empty());
        }
        map
    }

    /// The number of entries.
    pub fn len(&self) -> (count: usize)
        ensures
            count == self.keys().len(),
            self.keys_listed(),
    {
        proof {
            use_type_invariant(self);
            self.lemma_listed();
        }
        self.entries.len()
    }

    /// The key of the entry at position `index` in key order.
    pub fn key_at(&self, index: usize) -> (key: &String)
        requires
            index < self.keys().len(),
        ensures
            key@ == self.keys()[index as int],
            self@.dom().contains(key@),
    {
        proof {
            use_type_invariant(self);
            self.lemma_listed();
        }
        &self.entries[index].0
    }

    /// The value of the entry at position `index` in key order.
    pub fn value_at(&self, index: usize) -> (value: &V)
        requires
            index < self.keys().len(),
        ensures
            *value == self@[self.keys()[index as int]],
            self@.dom().contains(self.keys()[index as int]),
    {
        proof {
            use_type_invariant(self);
            self.lemma_listed();
        }
        &self.entries[index].1
    }

    /// The first position whose key is not before `key`, and whether that key
    /// is `key` itself.
    fn locate(&self, key: &str) -> (found: (usize, bool))
        requires
            keys_ascend(self.entries@),
        ensures
            found.0 <= self.entries@.len(),
            forall|i: int|
                0 <= i < found.0 ==> text::text_less((#[trigger] self.entries@[i]).0@, key@),
            found.1 ==> found.0 < self.entries@.len() && self.entries@[found.0 as int].0@ == key@,
            !found.1 ==> forall|i: int|
                found.0 <= i < self.entries@.len() ==> text::text_less(
                    key@,
                    (#[trigger] self.entries@[i]).0@,
                ),
            found.1 == self@.dom().contains(key@),
    {
        let mut i: usize = 0;
        while i < self.entries.len()
            invariant
                keys_ascend(self.entries@),
                i <= self.entries@.len(),
                forall|j: int| 0 <= j < i ==> text::text_less((#[trigger] self.entries@[j]).0@, key@),
            decreases self.entries@.len() - i,
        {
            match text::text_order(self.entries[i].0.as_str(), key) {
                text::TextOrder::Before => {
                    i = i + 1;
                },
                text::TextOrder::Same => {
                    proof {
                        lemma_position_unique(self.entries@, i as int);
                    }
                    return (i, true);
                },
                text::TextOrder::After => {
                    proof {
                        assert forall|j: int| i <= j < self.entries@.len() implies text::text_less(
                            key@,
                            (#[trigger] self.entries@[j]).0@,
                        ) by {
                            if j > i {
                                text::lemma_text_transitive(
                                    key@,
                                    self.entries@[i as int].0@,
                                    self.entries@[j].0@,
                                );
                            }
                        }
                        self.lemma_absent(key@, i as int);
                    }
                    return (i, false);
                },
            }
        }
        proof {
            self.lemma_absent(key@, i as int);
        }
        (i, false)
    }

    proof fn lemma_absent(&self, key: Seq<char>, at: int)
        requires
            0 <= at <= self.entries@.len(),
            forall|i: int| 0 <= i < at ==> text::text_less((#[trigger] self.entries@[i]).0@, key),
            forall|i: int|
                at <= i < self.entries@.len() ==> text::text_less(key, (#[trigger] self.entries@[i]).0@),
        ensures
            !self@.dom().contains(key),
    {
        text::lemma_text_total(key, key);
    }

    /// The value of `key`.
    pub fn get(&self, key: &str) -> (value: Option<&V>)
        ensures
            match value {
                Some(found) => self@.dom().contains(key@) && *found == self@[key@],
                None => !self@.dom().contains(key@),
            },
    {
        proof {
            use_type_invariant(self);
            self.lemma_listed();
        }
        let found = self.locate(key);
        if found.1 {
            Some(&self.entries[found.0].1)
        } else {
            None
        }
    }

    /// Whether `key` has an entry.
    pub fn contains_key(&self, key: &str) -> (present: bool)
        ensures
            present == self@.dom().contains(key@),
    {
        proof {
            use_type_invariant(self);
        }
        self.locate(key).1
    }

    /// Sets the value of `key` and returns the value it had.
    pub fn insert(&mut self, key: String, value: V) -> (previous: Option<V>)
        ensures
            final(self)@ == old(self)@.insert(key@, value),
            previous == (if old(self)@.dom().contains(key@) {
                Some(old(self)@[key@])
            } else {
                None
            }),
            final(self).keys_listed(),
    {
        proof {
            use_type_invariant(&*self);
            self.lemma_listed();
        }
        let found = self.locate(key.as_str());
        let mut entries: Vec<(String, V)> = Vec::new();
        std::mem::swap(&mut entries, &mut self.entries);
        let ghost before = entries@;
        let ghost name = key@;
        let previous: Option<V>;
        if found.1 {
            let removed = entries.remove(found.0);
            previous = Some(removed.1);
        } else {
            previous = None;
        }
        entries.insert(found.0, (key, value));
        let ghost at = found.0 as int;
        proof {
            if found.1 {
                lemma_position_unique(before, at);
                assert(entries@ =~= before.update(at, (key, value)));
            } else {
                assert(entries@ =~= before.insert(at, (key, value)));
            }
            assert(keys_ascend(entries@)) by {
                assert forall|i: int, j: int| 0 <= i < j < entries@.len() implies text::text_less(
                    (#[trigger] entries@[i]).0@,
                    (#[trigger] entries@[j]).0@,
                ) by {
                    let shift: int = if found.1 { 0 } else { 1 };
                    let back = |p: int| if p > at { p - shift } else { p };
                    if i != at && j != at {
                        assert(entries@[i] == before[back(i)]);
                        assert(entries@[j] == before[back(j)]);
                    } else if i == at {
                        assert(entries@[j] == before[back(j)]);
                        if found.1 {
                            assert(before[at].0@ == name);
                        }
                    } else {
                        assert(entries@[i] == before[i]);
                    }
                }
            }
            lemma_insert_map(before, entries@, at, found.1, key, value);
        }
        self.entries = entries;
        proof {
            self.lemma_listed();
        }
        previous
    }

    /// Removes `key` and returns the value it had.
    pub fn remove(&mut self, key: &str) -> (previous: Option<V>)
        ensures
            final(self)@ == old(self)@.remove(key@),
            previous == (if old(self)@.dom().contains(key@) {
                Some(old(self)@[key@])
            } else {
                None
            }),
            final(self).keys_listed(),
    {
        proof {
            use_type_invariant(&*self);
            self.lemma_listed();
        }
        let found = self.locate(key);
        if !found.1 {
            proof {
                assert(self@ =~= old(self)@.remove(key@));
            }
            return None;
        }
        let mut entries: Vec<(String, V)> = Vec::new();
        std::mem::swap(&mut entries, &mut self.entries);
        let ghost before = entries@;
        let removed = entries.remove(found.0);
        let ghost at = found.0 as int;
        proof {
            assert(entries@ =~= before.remove(at));
            lemma_position_unique(before, at);
            lemma_remove_map(before, at);
        }
        self.entries = entries;
        proof {
            self.lemma_listed();
        }
        Some(removed.1)
    }
}

proof fn lemma_insert_map<V>(
    before: Seq<(String, V)>,
    after: Seq<(String, V)>,
    at: int,
    replaced: bool,
    key: String,
    value: V,
)
    requires
        keys_ascend(before),
        keys_ascend(after),
        0 <= at <= before.len(),
        replaced ==> at < before.len() && before[at].0@ == key@ && after == before.update(at, (key, value)),
        !replaced ==> after == before.insert(at, (key, value)),
    ensures
        entries_map(after) == entries_map(before).insert(key@, value),
{
    let shift: int = if replaced { 0 } else { 1 };
    assert(after[at] == (key, value));
    lemma_position_unique(after, at);
    assert forall|k: Seq<char>| has_key(after, k) == (k == key@ || has_key(before, k)) by {
        if has_key(after, k) && k != key@ {
            let i = key_position(after, k);
            let b = if i > at { i - shift } else { i };
            assert(before[b].0@ == k);
        }
        if has_key(before, k) {
            let b = key_position(before, k);
            let i = if b >= at { b + shift } else { b };
            assert(after[i].0@ == k || k == key@);
        }
    }
    assert forall|k: Seq<char>| has_key(after, k) implies entries_map(after)[k]
        == entries_map(before).insert(key@, value)[k] by {
        if k != key@ {
            let i = key_position(after, k);
            let b = if i > at { i - shift } else { i };
            assert(before[b] == after[i]);
            lemma_position_unique(before, b);
        }
    }
    assert(entries_map(after) =~= entries_map(before).insert(key@, value));
}

proof fn lemma_remove_map<V>(before: Seq<(String, V)>, at: int)
    requires
        keys_ascend(before),
        0 <= at < before.len(),
    ensures
        keys_ascend(before.remove(at)),
        entries_map(before.remove(at)) == entries_map(before).remove(before[at].0@),
{
    let after = before.remove(at);
    let key = before[at].0@;
    assert forall|i: int, j: int| 0 <= i < j < after.len() implies text::text_less(
        (#[trigger] after[i]).0@,
        (#[trigger] after[j]).0@,
    ) by {
        let bi = if i >= at { i + 1 } else { i };
        let bj = if j >= at { j + 1 } else { j };
        assert(after[i] == before[bi]);
        assert(after[j] == before[bj]);
    }
    lemma_position_unique(before, at);
    assert forall|k: Seq<char>| has_key(after, k) == (k != key && has_key(before, k)) by {
        if has_key(after, k) {
            let i = key_position(after, k);
            let b = if i >= at { i + 1 } else { i };
            assert(before[b].0@ == k);
            lemma_position_unique(before, b);
        }
        if has_key(before, k) && k != key {
            let b = key_position(before, k);
            let i = if b > at { b - 1 } else { b };
            assert(after[i].0@ == k);
        }
    }
    assert forall|k: Seq<char>| has_key(after, k) implies entries_map(after)[k] == entries_map(before).remove(key)[k] by {
        let i = key_position(after, k);
        let b = if i >= at { i + 1 } else { i };
        assert(before[b] == after[i]);
        lemma_position_unique(before, b);
    }
    assert(entries_map(after) =~= entries_map(before).remove(key));
}

} // verus!
