//! Maps and sets of plain values.

use vstd::prelude::*;
use crate::plain::Plain;

verus! {

/// No key occurs twice.
pub open spec fn keys_differ<A, B>(entries: Seq<(A, B)>) -> bool {
    forall|i: int, j: int|
        0 <= i < j < entries.len() ==> (#[trigger] entries[i]).0 != (#[trigger] entries[j]).0
}

/// Whether some entry is stored under `key`.
pub open spec fn holds_key<A, B>(entries: Seq<(A, B)>, key: A) -> bool {
    exists|i: int| 0 <= i < entries.len() && (#[trigger] entries[i]).0 == key
}

/// The position of the entry stored under `key`.
pub open spec fn entry_at<A, B>(entries: Seq<(A, B)>, key: A) -> int {
    choose|i: int| 0 <= i < entries.len() && (#[trigger] entries[i]).0 == key
}

/// The map that a list of entries with different keys stands for.
pub open spec fn map_of<A, B>(entries: Seq<(A, B)>) -> Map<A, B> {
    Map::new(|key: A| holds_key(entries, key), |key: A| entries[entry_at(entries, key)].1)
}

/// The keys of a list of entries.
pub open spec fn keys_of<A, B>(entries: Seq<(A, B)>) -> Seq<A> {
    entries.map_values(|entry: (A, B)| entry.0)
}

proof fn lemma_entry<A, B>(entries: Seq<(A, B)>, i: int)
    requires
        keys_differ(entries),
        0 <= i < entries.len(),
    ensures
        entry_at(entries, entries[i].0) == i,
        map_of(entries).contains_key(entries[i].0),
        map_of(entries)[entries[i].0] == entries[i].1,
{
    let p = entry_at(entries, entries[i].0);
    assert(0 <= p < entries.len() && entries[p].0 == entries[i].0);
}

proof fn lemma_updated<A, B>(entries: Seq<(A, B)>, i: int, value: B)
    requires
        keys_differ(entries),
        0 <= i < entries.len(),
    ensures
        keys_differ(entries.update(i, (entries[i].0, value))),
        map_of(entries.update(i, (entries[i].0, value))) == map_of(entries).insert(
            entries[i].0,
            value,
        ),
{
    let new = entries.update(i, (entries[i].0, value));
    assert forall|a: int, b: int| 0 <= a < b < new.len() implies (#[trigger] new[a]).0 != (
    #[trigger] new[b]).0 by {
        assert(entries[a].0 != entries[b].0);
    }
    let got = map_of(new);
    let want = map_of(entries).insert(entries[i].0, value);
    assert forall|k: A| #[trigger] got.contains_key(k) <==> want.contains_key(k) by {
        if got.contains_key(k) {
            assert(entries[entry_at(new, k)].0 == k);
        }
        if want.contains_key(k) {
            if k == entries[i].0 {
                assert(new[i].0 == k);
            } else {
                assert(new[entry_at(entries, k)].0 == k);
            }
        }
    }
    assert forall|k: A| #[trigger] got.contains_key(k) implies got[k] == want[k] by {
        let p = entry_at(new, k);
        lemma_entry(new, p);
        lemma_entry(entries, p);
    }
    assert(got =~= want);
}

proof fn lemma_added<A, B>(entries: Seq<(A, B)>, key: A, value: B)
    requires
        keys_differ(entries),
        !holds_key(entries, key),
    ensures
        keys_differ(entries.push((key, value))),
        map_of(entries.push((key, value))) == map_of(entries).insert(key, value),
{
    let new = entries.push((key, value));
    assert forall|a: int, b: int| 0 <= a < b < new.len() implies (#[trigger] new[a]).0 != (
    #[trigger] new[b]).0 by {
        if b < entries.len() {
            assert(entries[a].0 != entries[b].0);
        } else {
            assert(entries[a].0 != key);
        }
    }
    let got = map_of(new);
    let want = map_of(entries).insert(key, value);
    assert forall|k: A| #[trigger] got.contains_key(k) <==> want.contains_key(k) by {
        if got.contains_key(k) {
            let p = entry_at(new, k);
            if p < entries.len() {
                assert(entries[p].0 == k);
            }
        }
        if want.contains_key(k) {
            if k == key {
                assert(new[entries.len() as int].0 == k);
            } else {
                assert(new[entry_at(entries, k)].0 == k);
            }
        }
    }
    assert forall|k: A| #[trigger] got.contains_key(k) implies got[k] == want[k] by {
        let p = entry_at(new, k);
        lemma_entry(new, p);
        if p < entries.len() {
            lemma_entry(entries, p);
        }
    }
    assert(got =~= want);
}

proof fn lemma_dropped<A, B>(entries: Seq<(A, B)>, i: int)
    requires
        keys_differ(entries),
        0 <= i < entries.len(),
    ensures
        keys_differ(entries.remove(i)),
        map_of(entries.remove(i)) == map_of(entries).remove(entries[i].0),
{
    let new = entries.remove(i);
    let from = |j: int|
        if j < i {
            j
        } else {
            j + 1
        };
    assert forall|a: int, b: int| 0 <= a < b < new.len() implies (#[trigger] new[a]).0 != (
    #[trigger] new[b]).0 by {
        assert(entries[from(a)].0 != entries[from(b)].0);
    }
    let got = map_of(new);
    let want = map_of(entries).remove(entries[i].0);
    assert forall|k: A| #[trigger] got.contains_key(k) <==> want.contains_key(k) by {
        if got.contains_key(k) {
            let p = from(entry_at(new, k));
            assert(entries[p].0 == k);
            if p < i {
                assert(entries[p].0 != entries[i].0);
            } else {
                assert(entries[i].0 != entries[p].0);
            }
        }
        if want.contains_key(k) {
            let p = entry_at(entries, k);
            let q = if p < i {
                p
            } else {
                p - 1
            };
            assert(new[q].0 == k);
        }
    }
    assert forall|k: A| #[trigger] got.contains_key(k) implies got[k] == want[k] by {
        let p = entry_at(new, k);
        lemma_entry(new, p);
        lemma_entry(entries, from(p));
    }
    assert(got =~= want);
}

proof fn lemma_keys<A, B>(entries: Seq<(A, B)>)
    requires
        keys_differ(entries),
    ensures
        keys_of(entries).no_duplicates(),
        forall|k: A| #[trigger]
            map_of(entries).contains_key(k) <==> keys_of(entries).contains(k),
        entries.len() == 0 <==> map_of(entries) == Map::<A, B>::empty(),
{
    let keys = keys_of(entries);
    assert forall|k: A| #[trigger] map_of(entries).contains_key(k) implies keys.contains(k) by {
        assert(keys[entry_at(entries, k)] == k);
    }
    assert forall|k: A| keys.contains(k) implies #[trigger] map_of(entries).contains_key(k) by {
        let i = choose|i: int| 0 <= i < keys.len() && keys[i] == k;
        lemma_entry(entries, i);
    }
    assert forall|i: int, j: int|
        0 <= i < keys.len() && 0 <= j < keys.len() && i != j implies keys[i] != keys[j] by {
        if i < j {
            assert(entries[i].0 != entries[j].0);
        } else {
            assert(entries[j].0 != entries[i].0);
        }
    }
    if entries.len() > 0 {
        lemma_entry(entries, 0);
        assert(map_of(entries).contains_key(entries[0].0));
    } else {
        assert(map_of(entries) =~= Map::<A, B>::empty());
    }
}

/// Values under different keys.
#[derive(Debug)]
pub struct PlainMap<K: Plain, V: Plain> {
    entries: Vec<(K, V)>,
}

impl<K: Plain, V: Plain> View for PlainMap<K, V> {
    type V = Map<<K as DeepView>::V, <V as DeepView>::V>;

    closed spec fn view(&self) -> Map<<K as DeepView>::V, <V as DeepView>::V> {
        map_of(self.entries.deep_view())
    }
}

impl<K: Plain, V: Plain> PlainMap<K, V> {
    #[verifier::type_invariant]
    spec fn inv(self) -> bool {
        keys_differ(self.entries.deep_view())
    }

    /// The empty map.
    pub fn new() -> (out: Self)
        ensures
            out@ == Map::<<K as DeepView>::V, <V as DeepView>::V>::empty(),
    {
        let out = PlainMap { entries: Vec::new() };
        proof {
            assert(out@ =~= Map::<<K as DeepView>::V, <V as DeepView>::V>::empty());
        }
        out
    }

    fn find(&self, key: &K) -> (found: Option<usize>)
        ensures
            found matches Some(i) ==> i < self.entries@.len() && self.entries.deep_view()[i as int].0
                == key.deep_view(),
            found is None ==> !holds_key(self.entries.deep_view(), key.deep_view()),
    {
        let mut i: usize = 0;
        while i < self.entries.len()
            invariant
                i <= self.entries@.len(),
                forall|j: int|
                    0 <= j < i ==> (#[trigger] self.entries.deep_view()[j]).0 != key.deep_view(),
            decreases self.entries@.len() - i,
        {
            if self.entries[i].0.equals(key) {
                return Some(i);
            }
            i = i + 1;
        }
        None
    }

    /// The value stored under `key`.
    pub fn get(&self, key: &K) -> (found: Option<&V>)
        ensures
            match found {
                Some(value) => self@.contains_key(key.deep_view()) && self@[key.deep_view()]
                    == value.deep_view(),
                None => !self@.contains_key(key.deep_view()),
            },
    {
        proof {
            use_type_invariant(self);
        }
        match self.find(key) {
            Some(i) => {
                proof {
                    lemma_entry(self.entries.deep_view(), i as int);
                }
                Some(&self.entries[i].1)
            },
            None => None,
        }
    }

    /// Whether a value is stored under `key`.
    pub fn contains_key(&self, key: &K) -> (found: bool)
        ensures
            found == self@.contains_key(key.deep_view()),
    {
        self.get(key).is_some()
    }

    /// Stores `value` under `key`, replacing what was there.
    pub fn insert(&mut self, key: K, value: V)
        ensures
            final(self)@ == old(self)@.insert(key.deep_view(), value.deep_view()),
    {
        proof {
            use_type_invariant(&*self);
        }
        let found = self.find(&key);
        let ghost before = self.entries.deep_view();
        let mut entries: Vec<(K, V)> = Vec::new();
        std::mem::swap(&mut entries, &mut self.entries);
        match found {
            Some(i) => {
                entries.set(i, (key, value));
                proof {
                    lemma_updated(before, i as int, value.deep_view());
                    assert(entries.deep_view() =~= before.update(
                        i as int,
                        (key.deep_view(), value.deep_view()),
                    ));
                }
            },
            None => {
                entries.push((key, value));
                proof {
                    lemma_added(before, key.deep_view(), value.deep_view());
                    assert(entries.deep_view() =~= before.push(
                        (key.deep_view(), value.deep_view()),
                    ));
                }
            },
        }
        self.entries = entries;
    }

    /// Removes what is stored under `key`.
    pub fn remove(&mut self, key: &K)
        ensures
            final(self)@ == old(self)@.remove(key.deep_view()),
    {
        proof {
            use_type_invariant(&*self);
        }
        let found = self.find(key);
        let ghost before = self.entries.deep_view();
        match found {
            Some(i) => {
                let mut entries: Vec<(K, V)> = Vec::new();
                std::mem::swap(&mut entries, &mut self.entries);
                let _ = entries.remove(i);
                proof {
                    lemma_dropped(before, i as int);
                    assert(entries.deep_view() =~= before.remove(i as int));
                }
                self.entries = entries;
            },
            None => {
                proof {
                    assert(map_of(before).remove(key.deep_view()) =~= map_of(before));
                }
            },
        }
    }

    /// The keys in the order in which they were first stored.
    pub closed spec fn keys_in_order(&self) -> Seq<<K as DeepView>::V> {
        keys_of(self.entries.deep_view())
    }

    /// How many keys the map has.
    pub fn len(&self) -> (n: usize)
        ensures
            n == self.keys_in_order().len(),
            n == 0 <==> self@ == Map::<<K as DeepView>::V, <V as DeepView>::V>::empty(),
            self.keys_in_order().no_duplicates(),
            forall|key: <K as DeepView>::V| #[trigger]
                self@.contains_key(key) <==> self.keys_in_order().contains(key),
    {
        proof {
            use_type_invariant(self);
            lemma_keys(self.entries.deep_view());
        }
        self.entries.len()
    }

    /// The `i`-th key and its value.
    pub fn entry(&self, i: usize) -> (out: (&K, &V))
        requires
            i < self.keys_in_order().len(),
        ensures
            out.0.deep_view() == self.keys_in_order()[i as int],
            self@.contains_key(out.0.deep_view()),
            self@[out.0.deep_view()] == out.1.deep_view(),
    {
        proof {
            use_type_invariant(self);
            lemma_entry(self.entries.deep_view(), i as int);
        }
        (&self.entries[i].0, &self.entries[i].1)
    }
}

/// Different values.
#[derive(Debug)]
pub struct PlainSet<K: Plain> {
    items: Vec<K>,
}

impl<K: Plain> View for PlainSet<K> {
    type V = Set<<K as DeepView>::V>;

    closed spec fn view(&self) -> Set<<K as DeepView>::V> {
        self.items.deep_view().to_set()
    }
}

impl<K: Plain> PlainSet<K> {
    #[verifier::type_invariant]
    spec fn inv(self) -> bool {
        self.items.deep_view().no_duplicates()
    }

    /// The empty set.
    pub fn new() -> (out: Self)
        ensures
            out@ == Set::<<K as DeepView>::V>::empty(),
    {
        let out = PlainSet { items: Vec::new() };
        proof {
            assert(out@ =~= Set::<<K as DeepView>::V>::empty());
        }
        out
    }

    /// Whether the set has `item`.
    pub fn contains(&self, item: &K) -> (found: bool)
        ensures
            found == self@.contains(item.deep_view()),
    {
        let mut i: usize = 0;
        while i < self.items.len()
            invariant
                i <= self.items@.len(),
                forall|j: int| 0 <= j < i ==> #[trigger] self.items.deep_view()[j] != item.deep_view(),
            decreases self.items@.len() - i,
        {
            if self.items[i].equals(item) {
                proof {
                    assert(self.items.deep_view()[i as int] == item.deep_view());
                }
                return true;
            }
            i = i + 1;
        }
        false
    }

    /// Adds `item`.
    pub fn insert(&mut self, item: K)
        ensures
            final(self)@ == old(self)@.insert(item.deep_view()),
    {
        proof {
            use_type_invariant(&*self);
        }
        let ghost before = self.items.deep_view();
        if self.contains(&item) {
            proof {
                assert(before.to_set().insert(item.deep_view()) =~= before.to_set());
            }
            return;
        }
        let mut items: Vec<K> = Vec::new();
        std::mem::swap(&mut items, &mut self.items);
        items.push(item);
        proof {
            let after = before.push(item.deep_view());
            assert(items.deep_view() =~= after);
            assert forall|x: <K as DeepView>::V| after.to_set().contains(x)
                <==> before.to_set().insert(item.deep_view()).contains(x) by {
                if x == item.deep_view() {
                    assert(after[before.len() as int] == x);
                } else if before.contains(x) {
                    let j = choose|j: int| 0 <= j < before.len() && before[j] == x;
                    assert(after[j] == x);
                }
            }
            assert(after.to_set() =~= before.to_set().insert(item.deep_view()));
            assert(after.no_duplicates()) by {
                assert forall|a: int, b: int|
                    0 <= a < after.len() && 0 <= b < after.len() && a != b implies after[a]
                    != after[b] by {
                    if a < before.len() {
                        assert(before.to_set().contains(before[a]));
                    }
                    if b < before.len() {
                        assert(before.to_set().contains(before[b]));
                    }
                }
            }
        }
        self.items = items;
    }

    /// How many items the set has.
    pub fn len(&self) -> (n: usize)
        ensures
            n == self@.len(),
            self@.finite(),
    {
        proof {
            use_type_invariant(self);
            self.items.deep_view().unique_seq_to_set();
        }
        self.items.len()
    }
}

impl<K: Plain> DeepView for PlainSet<K> {
    type V = Set<<K as DeepView>::V>;

    open spec fn deep_view(&self) -> Set<<K as DeepView>::V> {
        self@
    }
}

impl<K: Plain> PlainSet<K> {
    /// Whether every item of this set is one of `other`.
    pub fn contained_in(&self, other: &PlainSet<K>) -> (yes: bool)
        ensures
            yes == self@.subset_of(other@),
    {
        let ghost all = self.items.deep_view();
        let mut i: usize = 0;
        while i < self.items.len()
            invariant
                i <= self.items@.len(),
                all == self.items.deep_view(),
                forall|j: int| 0 <= j < i ==> other@.contains(#[trigger] all[j]),
            decreases self.items@.len() - i,
        {
            proof {
                assert(all[i as int] == self.items@[i as int].deep_view());
                assert(self@.contains(all[i as int]));
            }
            if !other.contains(&self.items[i]) {
                return false;
            }
            i = i + 1;
        }
        true
    }
}

impl<K: Plain> Plain for PlainSet<K> {
    fn equals(&self, other: &Self) -> (same: bool) {
        let same = self.contained_in(other) && other.contained_in(self);
        proof {
            if self@.subset_of(other@) && other@.subset_of(self@) {
                assert(self@ =~= other@);
            }
        }
        same
    }

    fn copy_of(&self) -> (out: Self) {
        proof {
            use_type_invariant(self);
        }
        PlainSet { items: self.items.copy_of() }
    }
}

} // verus!
