//! A table of records keyed by strings and kept in key order.
//!
//! This is the shape of every collection of the store: a key is looked up, or
//! the keys are listed in ascending order.

use vstd::prelude::*;

use crate::error::{answer, Entity, QueryError};
use crate::keys::{
    key_less, key_lt, lemma_key_lt_irreflexive, lemma_key_lt_total, lemma_key_lt_transitive,
};

verus! {

/// Whether each key comes strictly before all the keys after it.
pub open spec fn ascending(keys: Seq<Seq<char>>) -> bool {
    forall|i: int, j: int| 0 <= i < j < keys.len() ==> key_lt(#[trigger] keys[i], #[trigger] keys[j])
}

/// What a table holds: the keys in the order in which they are listed, and
/// the record under each key.
pub struct TableView<T> {
    pub keys: Seq<Seq<char>>,
    pub entries: Map<Seq<char>, T>,
}

impl<T> TableView<T> {
    /// The record under `key`, if there is one.
    pub open spec fn get(self, key: Seq<char>) -> Option<T> {
        if self.entries.contains_key(key) {
            Some(self.entries[key])
        } else {
            None
        }
    }

    /// The record under `key`, or the report that a record of kind `missing`
    /// is not there.
    pub open spec fn require(self, key: Seq<char>, missing: Entity) -> Result<T, QueryError> {
        match self.get(key) {
            Some(value) => Ok(value),
            None => Err(QueryError::NotFound(missing)),
        }
    }

    /// The records in the order of their keys.
    pub open spec fn values(self) -> Seq<T> {
        Seq::new(self.keys.len(), |i: int| self.entries[self.keys[i]])
    }

    /// No key is listed and no record is held.
    pub open spec fn is_empty(self) -> bool {
        self.keys.len() == 0 && self.entries == Map::<Seq<char>, T>::empty()
    }

    /// The listed keys are ascending, and they are exactly the keys that hold
    /// a record.
    pub open spec fn ordered(self) -> bool {
        &&& ascending(self.keys)
        &&& forall|key: Seq<char>| self.entries.contains_key(key) <==> self.keys.contains(key)
    }
}

/// A table of records of type `V`, sorted by key.
pub struct Table<V> {
    entries: Vec<(String, V)>,
}

spec fn sorted<V>(s: Seq<(String, V)>) -> bool {
    forall|i: int, j: int|
        0 <= i < j < s.len() ==> key_lt((#[trigger] s[i]).0@, (#[trigger] s[j]).0@)
}

spec fn has_key<V>(s: Seq<(String, V)>, key: Seq<char>) -> bool {
    exists|i: int| 0 <= i < s.len() && (#[trigger] s[i]).0@ == key
}

spec fn index_of<V>(s: Seq<(String, V)>, key: Seq<char>) -> int {
    choose|i: int| 0 <= i < s.len() && (#[trigger] s[i]).0@ == key
}

spec fn view_of<V: DeepView>(s: Seq<(String, V)>) -> TableView<V::V> {
    TableView {
        keys: Seq::new(s.len(), |i: int| s[i].0@),
        entries: Map::new(
            |key: Seq<char>| has_key(s, key),
            |key: Seq<char>| s[index_of(s, key)].1.deep_view(),
        ),
    }
}

/// In a sorted table a key stands at one index only.
proof fn lemma_index_unique<V>(s: Seq<(String, V)>, i: int)
    requires
        sorted(s),
        0 <= i < s.len(),
    ensures
        has_key(s, s[i].0@),
        index_of(s, s[i].0@) == i,
{
    let key = s[i].0@;
    let j = index_of(s, key);
    lemma_key_lt_irreflexive(key);
    assert(s[j].0@ == key);
}

/// The view of a sorted table is ordered.
proof fn lemma_view_ordered<V: DeepView>(s: Seq<(String, V)>)
    requires
        sorted(s),
    ensures
        view_of(s).ordered(),
{
    let view = view_of(s);
    assert forall|key: Seq<char>| view.entries.contains_key(key) <==> view.keys.contains(
        key,
    ) by {
        if view.entries.contains_key(key) {
            let i = index_of(s, key);
            assert(view.keys[i] == key);
        }
        if view.keys.contains(key) {
            let i = choose|i: int| 0 <= i < view.keys.len() && view.keys[i] == key;
            assert(s[i].0@ == key);
        }
    }
    assert forall|i: int, j: int| 0 <= i < j < view.keys.len() implies key_lt(
        #[trigger] view.keys[i],
        #[trigger] view.keys[j],
    ) by {
        assert(key_lt(s[i].0@, s[j].0@));
    }
}

/// Putting a new key at its place keeps the table sorted and adds one record.
proof fn lemma_insert_entry<V: DeepView>(s: Seq<(String, V)>, at: int, entry: (String, V))
    requires
        sorted(s),
        0 <= at <= s.len(),
        forall|j: int| 0 <= j < at ==> key_lt((#[trigger] s[j]).0@, entry.0@),
        forall|j: int| at <= j < s.len() ==> key_lt(entry.0@, (#[trigger] s[j]).0@),
    ensures
        sorted(s.insert(at, entry)),
        view_of(s.insert(at, entry)).entries == view_of(s).entries.insert(
            entry.0@,
            entry.1.deep_view(),
        ),
{
    let t = s.insert(at, entry);
    s.insert_ensures(at, entry);
    assert forall|i: int, j: int| 0 <= i < j < t.len() implies key_lt(
        (#[trigger] t[i]).0@,
        (#[trigger] t[j]).0@,
    ) by {
        if j < at {
            assert(t[i] == s[i] && t[j] == s[j]);
        } else if j == at {
            assert(t[i] == s[i]);
        } else if i < at {
            assert(t[i] == s[i] && t[j] == s[j - 1]);
        } else if i == at {
            assert(t[j] == s[j - 1]);
        } else {
            assert(t[i] == s[i - 1] && t[j] == s[j - 1]);
        }
    }
    let before = view_of(s).entries;
    let after = view_of(t).entries;
    let expected = before.insert(entry.0@, entry.1.deep_view());
    assert forall|key: Seq<char>| after.contains_key(key) <==> expected.contains_key(key) by {
        if after.contains_key(key) {
            let i = index_of(t, key);
            if i < at {
                assert(s[i].0@ == key);
            } else if i > at {
                assert(s[i - 1].0@ == key);
            }
        }
        if before.contains_key(key) {
            let i = index_of(s, key);
            if i < at {
                assert(t[i].0@ == key);
            } else {
                assert(t[i + 1].0@ == key);
            }
        }
        if key == entry.0@ {
            assert(t[at].0@ == key);
        }
    }
    assert forall|key: Seq<char>| after.contains_key(key) implies after[key] == expected[key] by {
        let i = index_of(t, key);
        lemma_index_unique(t, i);
        if i < at {
            lemma_index_unique(s, i);
            lemma_key_lt_irreflexive(key);
        } else if i > at {
            lemma_index_unique(s, i - 1);
            lemma_key_lt_irreflexive(key);
        }
    }
    assert(after =~= expected);
}

/// Replacing the record under a key keeps the table sorted and its keys.
proof fn lemma_replace_entry<V: DeepView>(s: Seq<(String, V)>, at: int, entry: (String, V))
    requires
        sorted(s),
        0 <= at < s.len(),
        s[at].0@ == entry.0@,
    ensures
        sorted(s.update(at, entry)),
        view_of(s.update(at, entry)).entries == view_of(s).entries.insert(
            entry.0@,
            entry.1.deep_view(),
        ),
{
    let t = s.update(at, entry);
    assert forall|i: int, j: int| 0 <= i < j < t.len() implies key_lt(
        (#[trigger] t[i]).0@,
        (#[trigger] t[j]).0@,
    ) by {
        assert(t[i].0@ == s[i].0@ && t[j].0@ == s[j].0@);
    }
    let before = view_of(s).entries;
    let after = view_of(t).entries;
    let expected = before.insert(entry.0@, entry.1.deep_view());
    assert forall|key: Seq<char>| after.contains_key(key) <==> expected.contains_key(key) by {
        if after.contains_key(key) {
            let i = index_of(t, key);
            assert(s[i].0@ == key);
        }
        if before.contains_key(key) {
            let i = index_of(s, key);
            assert(t[i].0@ == key);
        }
        if key == entry.0@ {
            assert(t[at].0@ == key);
        }
    }
    assert forall|key: Seq<char>| after.contains_key(key) implies after[key] == expected[key] by {
        let i = index_of(t, key);
        lemma_index_unique(t, i);
        if i != at {
            lemma_index_unique(s, i);
            lemma_index_unique(s, at);
        }
    }
    assert(after =~= expected);
}

/// Taking an entry out keeps the table sorted and removes its record.
proof fn lemma_remove_entry<V: DeepView>(s: Seq<(String, V)>, at: int)
    requires
        sorted(s),
        0 <= at < s.len(),
    ensures
        sorted(s.remove(at)),
        view_of(s.remove(at)).entries == view_of(s).entries.remove(s[at].0@),
{
    let t = s.remove(at);
    s.remove_ensures(at);
    assert forall|i: int, j: int| 0 <= i < j < t.len() implies key_lt(
        (#[trigger] t[i]).0@,
        (#[trigger] t[j]).0@,
    ) by {
        if j < at {
            assert(t[i] == s[i] && t[j] == s[j]);
        } else if i < at {
            assert(t[i] == s[i] && t[j] == s[j + 1]);
        } else {
            assert(t[i] == s[i + 1] && t[j] == s[j + 1]);
        }
    }
    let before = view_of(s).entries;
    let after = view_of(t).entries;
    let expected = before.remove(s[at].0@);
    lemma_index_unique(s, at);
    assert forall|key: Seq<char>| after.contains_key(key) <==> expected.contains_key(key) by {
        if after.contains_key(key) {
            let i = index_of(t, key);
            if i < at {
                lemma_index_unique(s, i);
            } else {
                lemma_index_unique(s, i + 1);
            }
        }
        if expected.contains_key(key) {
            let i = index_of(s, key);
            if i < at {
                assert(t[i].0@ == key);
            } else {
                assert(t[i - 1].0@ == key);
            }
        }
    }
    assert forall|key: Seq<char>| after.contains_key(key) implies after[key] == expected[key] by {
        let i = index_of(t, key);
        lemma_index_unique(t, i);
        if i < at {
            lemma_index_unique(s, i);
        } else {
            lemma_index_unique(s, i + 1);
        }
    }
    assert(after =~= expected);
}

impl<V: DeepView> View for Table<V> {
    type V = TableView<V::V>;

    closed spec fn view(&self) -> TableView<V::V> {
        view_of(self.entries@)
    }
}

impl<V: DeepView> DeepView for Table<V> {
    type V = TableView<V::V>;

    open spec fn deep_view(&self) -> TableView<V::V> {
        self@
    }
}

impl<V> Table<V> {
    #[verifier::type_invariant]
    spec fn well_formed(&self) -> bool {
        sorted(self.entries@)
    }
}

impl<V: DeepView> Table<V> {
    /// An empty table.
    pub fn new() -> (r: Self)
        ensures
            r@.is_empty(),
    {
        let r = Table { entries: Vec::new() };
        assert(r@.entries =~= Map::empty());
        r
    }

    /// Shows that the table's view is ordered. Nothing is computed: the fact
    /// follows from the way a table is built.
    pub fn ordered(&self)
        ensures
            self@.ordered(),
    {
        proof {
            use_type_invariant(self);
            lemma_view_ordered(self.entries@);
        }
    }

    /// The number of records.
    pub fn len(&self) -> (r: usize)
        ensures
            r == self@.keys.len(),
            self@.ordered(),
    {
        proof {
            use_type_invariant(self);
            lemma_view_ordered(self.entries@);
        }
        self.entries.len()
    }

    /// The key at position `i` of the ascending list of keys.
    pub fn key(&self, i: usize) -> (r: &String)
        requires
            i < self@.keys.len(),
        ensures
            r@ == self@.keys[i as int],
    {
        &self.entries[i].0
    }

    /// The record under the key at position `i`.
    pub fn value(&self, i: usize) -> (r: &V)
        requires
            i < self@.keys.len(),
        ensures
            self@.get(self@.keys[i as int]) == Some(r.deep_view()),
    {
        proof {
            use_type_invariant(self);
            lemma_index_unique(self.entries@, i as int);
        }
        &self.entries[i].1
    }

    /// Where `key` stands or would stand, and whether it is there: a binary
    /// search over the sorted keys.
    fn position(&self, key: &str) -> (r: (usize, bool))
        ensures
            r.0 <= self.entries@.len(),
            forall|j: int| 0 <= j < r.0 ==> key_lt((#[trigger] self.entries@[j]).0@, key@),
            r.1 ==> r.0 < self.entries@.len() && self.entries@[r.0 as int].0@ == key@,
            !r.1 ==> forall|j: int|
                r.0 <= j < self.entries@.len() ==> key_lt(key@, (#[trigger] self.entries@[j]).0@),
    {
        proof {
            use_type_invariant(self);
        }
        let mut lo: usize = 0;
        let mut hi: usize = self.entries.len();
        while lo < hi
            invariant
                lo <= hi <= self.entries@.len(),
                sorted(self.entries@),
                forall|j: int| 0 <= j < lo ==> key_lt((#[trigger] self.entries@[j]).0@, key@),
                forall|j: int|
                    hi <= j < self.entries@.len() ==> !key_lt(
                        (#[trigger] self.entries@[j]).0@,
                        key@,
                    ),
            decreases hi - lo,
        {
            let mid: usize = lo + (hi - lo) / 2;
            if key_less(self.entries[mid].0.as_str(), key) {
                proof {
                    assert forall|j: int| 0 <= j < mid + 1 implies key_lt(
                        (#[trigger] self.entries@[j]).0@,
                        key@,
                    ) by {
                        if j < mid {
                            lemma_key_lt_transitive(
                                self.entries@[j].0@,
                                self.entries@[mid as int].0@,
                                key@,
                            );
                        }
                    }
                }
                lo = mid + 1;
            } else {
                proof {
                    assert forall|j: int| mid <= j < self.entries@.len() implies !key_lt(
                        (#[trigger] self.entries@[j]).0@,
                        key@,
                    ) by {
                        if j > mid && key_lt(self.entries@[j].0@, key@) {
                            lemma_key_lt_transitive(
                                self.entries@[mid as int].0@,
                                self.entries@[j].0@,
                                key@,
                            );
                        }
                    }
                }
                hi = mid;
            }
        }
        let found: bool = lo < self.entries.len() && !key_less(key, self.entries[lo].0.as_str());
        proof {
            if lo < self.entries@.len() {
                let here = self.entries@[lo as int].0@;
                if found {
                    if here != key@ {
                        lemma_key_lt_total(here, key@);
                    }
                } else {
                    assert forall|j: int| lo <= j < self.entries@.len() implies key_lt(
                        key@,
                        (#[trigger] self.entries@[j]).0@,
                    ) by {
                        if j > lo {
                            lemma_key_lt_transitive(key@, here, self.entries@[j].0@);
                        }
                    }
                }
            }
        }
        (lo, found)
    }

    /// The record under `key`, if there is one.
    pub fn get(&self, key: &str) -> (r: Option<&V>)
        ensures
            r is Some <==> self@.entries.contains_key(key@),
            r matches Some(value) ==> self@.entries[key@] == value.deep_view(),
    {
        proof {
            use_type_invariant(self);
        }
        let (at, found) = self.position(key);
        if found {
            proof {
                lemma_index_unique(self.entries@, at as int);
            }
            Some(&self.entries[at].1)
        } else {
            proof {
                if has_key(self.entries@, key@) {
                    let i = index_of(self.entries@, key@);
                    lemma_key_lt_irreflexive(key@);
                }
            }
            None
        }
    }

    /// The record under `key`, or the report that a record of kind `missing`
    /// is not there.
    pub fn require(&self, key: &str, missing: Entity) -> (r: Result<&V, QueryError>)
        ensures
            answer(r) == self@.require(key@, missing),
    {
        match self.get(key) {
            Some(value) => Ok(value),
            None => Err(QueryError::NotFound(missing)),
        }
    }

    /// The keys, in ascending order.
    pub fn keys(&self) -> (r: Vec<String>)
        ensures
            r.deep_view() == self@.keys,
            ascending(self@.keys),
    {
        proof {
            use_type_invariant(self);
            lemma_view_ordered(self.entries@);
        }
        let mut out: Vec<String> = Vec::new();
        let mut i: usize = 0;
        while i < self.entries.len()
            invariant
                i <= self.entries@.len(),
                out.len() == i,
                forall|j: int| 0 <= j < i ==> out[j]@ == self.entries@[j].0@,
            decreases self.entries@.len() - i,
        {
            out.push(self.entries[i].0.clone());
            i += 1;
        }
        assert(out.deep_view() =~= self@.keys);
        out
    }

    /// Puts `value` under `key`, in place of the record that was there if
    /// there was one.
    pub fn insert(&mut self, key: String, value: V)
        ensures
            final(self)@.entries == old(self)@.entries.insert(key@, value.deep_view()),
            final(self)@.ordered(),
    {
        proof {
            use_type_invariant(&*self);
        }
        let (at, found) = self.position(key.as_str());
        let mut entries: Vec<(String, V)> = Vec::new();
        core::mem::swap(&mut self.entries, &mut entries);
        if found {
            proof {
                lemma_replace_entry(entries@, at as int, (key, value));
                lemma_view_ordered(entries@.update(at as int, (key, value)));
            }
            entries.set(at, (key, value));
        } else {
            proof {
                lemma_insert_entry(entries@, at as int, (key, value));
                lemma_view_ordered(entries@.insert(at as int, (key, value)));
            }
            entries.insert(at, (key, value));
        }
        core::mem::swap(&mut self.entries, &mut entries);
    }

    /// Takes out the record under `key` and returns it, if there is one.
    pub fn remove(&mut self, key: &str) -> (r: Option<V>)
        ensures
            final(self)@.entries == old(self)@.entries.remove(key@),
            final(self)@.ordered(),
            r is Some <==> old(self)@.entries.contains_key(key@),
            r matches Some(value) ==> old(self)@.entries[key@] == value.deep_view(),
    {
        proof {
            use_type_invariant(&*self);
        }
        let (at, found) = self.position(key);
        if found {
            let mut entries: Vec<(String, V)> = Vec::new();
            core::mem::swap(&mut self.entries, &mut entries);
            proof {
                lemma_index_unique(entries@, at as int);
                lemma_remove_entry(entries@, at as int);
                lemma_view_ordered(entries@.remove(at as int));
            }
            let entry = entries.remove(at);
            core::mem::swap(&mut self.entries, &mut entries);
            Some(entry.1)
        } else {
            proof {
                if has_key(self.entries@, key@) {
                    let i = index_of(self.entries@, key@);
                    lemma_key_lt_irreflexive(key@);
                }
                lemma_view_ordered(self.entries@);
                assert(self@.entries.remove(key@) =~= self@.entries);
            }
            None
        }
    }
}

} // verus!
