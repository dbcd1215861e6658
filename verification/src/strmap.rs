//! A map from text to text: labels, annotations and environments.

use vstd::prelude::*;
use crate::text::same_text;

verus! {

/// Text values under distinct text keys.
#[derive(Debug)]
pub struct StrMap {
    entries: Vec<(String, String)>,
}

/// No key occurs twice.
pub open spec fn distinct_keys(entries: Seq<(String, String)>) -> bool {
    forall|i: int, j: int|
        0 <= i < j < entries.len() ==> (#[trigger] entries[i]).0@ != (#[trigger] entries[j]).0@
}

/// Whether some entry is stored under `key`.
pub open spec fn has_key(entries: Seq<(String, String)>, key: Seq<char>) -> bool {
    exists|i: int| 0 <= i < entries.len() && (#[trigger] entries[i]).0@ == key
}

/// The position of the entry stored under `key`.
pub open spec fn position_of(entries: Seq<(String, String)>, key: Seq<char>) -> int {
    choose|i: int| 0 <= i < entries.len() && (#[trigger] entries[i]).0@ == key
}

/// The map that a list of entries with distinct keys stands for.
pub open spec fn entries_map(entries: Seq<(String, String)>) -> Map<Seq<char>, Seq<char>> {
    Map::new(
        |key: Seq<char>| has_key(entries, key),
        |key: Seq<char>| entries[position_of(entries, key)].1@,
    )
}

proof fn lemma_position(entries: Seq<(String, String)>, i: int)
    requires
        distinct_keys(entries),
        0 <= i < entries.len(),
    ensures
        has_key(entries, entries[i].0@),
        position_of(entries, entries[i].0@) == i,
        entries_map(entries).contains_key(entries[i].0@),
        entries_map(entries)[entries[i].0@] == entries[i].1@,
{
    let p = position_of(entries, entries[i].0@);
    assert(0 <= p < entries.len() && entries[p].0@ == entries[i].0@);
}

impl View for StrMap {
    type V = Map<Seq<char>, Seq<char>>;

    closed spec fn view(&self) -> Map<Seq<char>, Seq<char>> {
        entries_map(self.entries@)
    }
}

impl DeepView for StrMap {
    type V = Map<Seq<char>, Seq<char>>;

    open spec fn deep_view(&self) -> Map<Seq<char>, Seq<char>> {
        self@
    }
}

impl Default for StrMap {
    fn default() -> (out: Self)
        ensures
            out@ == Map::<Seq<char>, Seq<char>>::empty(),
    {
        StrMap::new()
    }
}

impl Clone for StrMap {
    fn clone(&self) -> (out: Self)
        ensures
            out@ == self@,
    {
        let mut entries: Vec<(String, String)> = Vec::new();
        let mut i: usize = 0;
        proof {
            use_type_invariant(self);
        }
        while i < self.entries.len()
            invariant
                i <= self.entries@.len(),
                entries@ == self.entries@.take(i as int),
            decreases self.entries@.len() - i,
        {
            entries.push((self.entries[i].0.clone(), self.entries[i].1.clone()));
            i = i + 1;
            proof {
                assert(self.entries@.take(i as int) =~= self.entries@.take(i - 1).push(self.entries@[i - 1]));
            }
        }
        proof {
            assert(self.entries@.take(i as int) =~= self.entries@);
        }
        StrMap { entries }
    }
}

impl StrMap {
    #[verifier::type_invariant]
    spec fn inv(self) -> bool {
        distinct_keys(self.entries@)
    }

    /// The empty map.
    pub fn new() -> (out: Self)
        ensures
            out@ == Map::<Seq<char>, Seq<char>>::empty(),
    {
        let out = StrMap { entries: Vec::new() };
        proof {
            assert(out@ =~= Map::<Seq<char>, Seq<char>>::empty());
        }
        out
    }

    fn find(&self, key: &str) -> (found: Option<usize>)
        ensures
            found matches Some(i) ==> i < self.entries@.len() && self.entries@[i as int].0@ == key@,
            found is None ==> !has_key(self.entries@, key@),
    {
        let mut i: usize = 0;
        while i < self.entries.len()
            invariant
                i <= self.entries@.len(),
                forall|j: int| 0 <= j < i ==> (#[trigger] self.entries@[j]).0@ != key@,
            decreases self.entries@.len() - i,
        {
            if same_text(self.entries[i].0.as_str(), key) {
                return Some(i);
            }
            i = i + 1;
        }
        None
    }

    /// The value stored under `key`.
    pub fn get(&self, key: &str) -> (found: Option<&String>)
        ensures
            match found {
                Some(value) => self@.contains_key(key@) && self@[key@] == value@,
                None => !self@.contains_key(key@),
            },
    {
        proof {
            use_type_invariant(self);
        }
        match self.find(key) {
            Some(i) => {
                proof {
                    lemma_position(self.entries@, i as int);
                }
                Some(&self.entries[i].1)
            },
            None => None,
        }
    }

    /// Whether a value is stored under `key`.
    pub fn contains_key(&self, key: &str) -> (found: bool)
        ensures
            found == self@.contains_key(key@),
    {
        self.get(key).is_some()
    }

    /// Stores `value` under `key`, replacing what was there.
    pub fn insert(&mut self, key: String, value: String)
        ensures
            final(self)@ == old(self)@.insert(key@, value@),
    {
        proof {
            use_type_invariant(&*self);
        }
        let found = self.find(key.as_str());
        let ghost before = self.entries@;
        let mut entries: Vec<(String, String)> = Vec::new();
        std::mem::swap(&mut entries, &mut self.entries);
        match found {
            Some(i) => {
                let ghost new = before.update(i as int, (key, value));
                entries.set(i, (key, value));
                proof {
                    assert(distinct_keys(new)) by {
                        assert forall|a: int, b: int| 0 <= a < b < new.len() implies (#[trigger] new[a]).0@
                            != (#[trigger] new[b]).0@ by {
                            assert(before[a].0@ != before[b].0@);
                        }
                    }
                    lemma_same_map(before, new, key@, value@, i as int);
                }
            },
            None => {
                let ghost new = before.push((key, value));
                entries.push((key, value));
                proof {
                    assert(distinct_keys(new));
                    lemma_pushed_map(before, key, value);
                }
            },
        }
        self.entries = entries;
    }

    /// Removes what is stored under `key`.
    pub fn remove(&mut self, key: &str)
        ensures
            final(self)@ == old(self)@.remove(key@),
    {
        proof {
            use_type_invariant(&*self);
        }
        let found = self.find(key);
        let ghost before = self.entries@;
        match found {
            Some(i) => {
                let mut entries: Vec<(String, String)> = Vec::new();
                std::mem::swap(&mut entries, &mut self.entries);
                let _ = entries.remove(i);
                proof {
                    lemma_removed_map(before, i as int);
                }
                self.entries = entries;
            },
            None => {
                proof {
                    assert(entries_map(before).remove(key@) =~= entries_map(before));
                }
            },
        }
    }

    /// How many keys the map has.
    pub fn len(&self) -> (n: usize)
        ensures
            n == self.keys_in_order().len(),
            n == 0 <==> self@ == Map::<Seq<char>, Seq<char>>::empty(),
            self.keys_in_order().no_duplicates(),
            forall|key: Seq<char>| #[trigger] self@.contains_key(key) <==> self.keys_in_order().contains(key),
    {
        proof {
            use_type_invariant(self);
            let keys = self.keys_in_order();
            assert forall|key: Seq<char>| #[trigger] self@.contains_key(key) implies keys.contains(key) by {
                let p = position_of(self.entries@, key);
                assert(keys[p] == key);
            }
            assert forall|key: Seq<char>| keys.contains(key) implies #[trigger] self@.contains_key(key) by {
                let i = choose|i: int| 0 <= i < keys.len() && keys[i] == key;
                lemma_position(self.entries@, i);
            }
            assert forall|i: int, j: int| 0 <= i < keys.len() && 0 <= j < keys.len() && i != j implies keys[i]
                != keys[j] by {
                if i < j {
                    assert(self.entries@[i].0@ != self.entries@[j].0@);
                } else {
                    assert(self.entries@[j].0@ != self.entries@[i].0@);
                }
            }
            if self.entries@.len() > 0 {
                lemma_position(self.entries@, 0);
                assert(self@.contains_key(self.entries@[0].0@));
            } else {
                assert(self@ =~= Map::<Seq<char>, Seq<char>>::empty());
            }
        }
        self.entries.len()
    }

    /// The keys in the order in which they were first stored.
    pub closed spec fn keys_in_order(&self) -> Seq<Seq<char>> {
        self.entries@.map_values(|e: (String, String)| e.0@)
    }

    /// The `i`-th key and its value.
    pub fn entry(&self, i: usize) -> (out: (&String, &String))
        requires
            i < self.keys_in_order().len(),
        ensures
            out.0@ == self.keys_in_order()[i as int],
            self@.contains_key(out.0@),
            self@[out.0@] == out.1@,
    {
        proof {
            use_type_invariant(self);
            lemma_position(self.entries@, i as int);
        }
        (&self.entries[i].0, &self.entries[i].1)
    }

    /// Stores every entry of `other`, replacing what was there.
    pub fn insert_all(&mut self, other: &StrMap)
        ensures
            final(self)@ == old(self)@.union_prefer_right(other@),
    {
        let n: usize = other.len();
        let ghost before = self@;
        let ghost keys = other.keys_in_order();
        let mut i: usize = 0;
        while i < n
            invariant
                i <= n,
                n == keys.len(),
                keys == other.keys_in_order(),
                forall|k: Seq<char>| #[trigger]
                    self@.contains_key(k) <==> before.contains_key(k) || keys.take(
                        i as int,
                    ).contains(k),
                forall|k: Seq<char>| #[trigger]
                    self@.contains_key(k) ==> self@[k] == if keys.take(i as int).contains(k) {
                        other@[k]
                    } else {
                        before[k]
                    },
            decreases n - i,
        {
            let (key, value) = other.entry(i);
            let ghost mid = self@;
            self.insert(key.clone(), value.clone());
            proof {
                let upto = keys.take(i + 1);
                assert(upto =~= keys.take(i as int).push(key@));
                assert forall|k: Seq<char>| upto.contains(k) <==> k == key@ || keys.take(
                    i as int,
                ).contains(k) by {
                    if k == key@ {
                        assert(upto[i as int] == k);
                    }
                    if keys.take(i as int).contains(k) {
                        let j = choose|j: int|
                            0 <= j < keys.take(i as int).len() && keys.take(i as int)[j] == k;
                        assert(upto[j] == k);
                    }
                    if upto.contains(k) && k != key@ {
                        let j = choose|j: int| 0 <= j < upto.len() && upto[j] == k;
                        assert(keys.take(i as int)[j] == k);
                    }
                }
                assert forall|k: Seq<char>| #[trigger]
                    self@.contains_key(k) implies self@[k] == if upto.contains(k) {
                    other@[k]
                } else {
                    before[k]
                } by {
                    if k != key@ {
                        assert(mid.contains_key(k));
                    }
                }
                assert forall|k: Seq<char>| #[trigger]
                    self@.contains_key(k) <==> before.contains_key(k) || upto.contains(k) by {
                    if k != key@ {
                        assert(mid.contains_key(k) <==> before.contains_key(k) || keys.take(
                            i as int,
                        ).contains(k));
                    }
                }
            }
            i = i + 1;
        }
        proof {
            assert(keys.take(i as int) =~= keys);
            let whole = before.union_prefer_right(other@);
            assert forall|k: Seq<char>| #[trigger]
                self@.contains_key(k) <==> whole.contains_key(k) by {
                assert(other@.contains_key(k) <==> keys.contains(k));
            }
            assert forall|k: Seq<char>| #[trigger] self@.contains_key(k) implies self@[k]
                == whole[k] by {
                assert(other@.contains_key(k) <==> keys.contains(k));
            }
            assert(self@ =~= whole);
        }
    }

    /// Whether every entry of `self` is an entry of `other`.
    pub fn contained_in(&self, other: &StrMap) -> (yes: bool)
        ensures
            yes == self@.submap_of(other@),
    {
        proof {
            use_type_invariant(self);
        }
        let mut i: usize = 0;
        while i < self.entries.len()
            invariant
                i <= self.entries@.len(),
                distinct_keys(self.entries@),
                forall|j: int|
                    0 <= j < i ==> other@.contains_key((#[trigger] self.entries@[j]).0@)
                        && other@[self.entries@[j].0@] == self.entries@[j].1@,
            decreases self.entries@.len() - i,
        {
            proof {
                lemma_position(self.entries@, i as int);
            }
            let matches = match other.get(self.entries[i].0.as_str()) {
                Some(value) => same_text(value.as_str(), self.entries[i].1.as_str()),
                None => false,
            };
            if !matches {
                proof {
                    assert(self@.contains_key(self.entries@[i as int].0@));
                }
                return false;
            }
            i = i + 1;
        }
        proof {
            assert forall|key: Seq<char>| #[trigger] self@.contains_key(key) implies other@.contains_key(key)
                && other@[key] == self@[key] by {
                let p = position_of(self.entries@, key);
                assert(self.entries@[p].0@ == key);
            }
        }
        true
    }

    /// Whether both maps hold the same values under the same keys.
    pub fn same_as(&self, other: &StrMap) -> (same: bool)
        ensures
            same == (self@ == other@),
    {
        let same = self.contained_in(other) && other.contained_in(self);
        proof {
            if self@.submap_of(other@) && other@.submap_of(self@) {
                assert(self@ =~= other@);
            }
        }
        same
    }
}

proof fn lemma_same_map(
    before: Seq<(String, String)>,
    new: Seq<(String, String)>,
    key: Seq<char>,
    value: Seq<char>,
    i: int,
)
    requires
        distinct_keys(before),
        distinct_keys(new),
        0 <= i < before.len(),
        before[i].0@ == key,
        new.len() == before.len(),
        new[i].0@ == key,
        new[i].1@ == value,
        forall|j: int| 0 <= j < before.len() && j != i ==> new[j] == before[j],
    ensures
        entries_map(new) == entries_map(before).insert(key, value),
{
    let a = entries_map(new);
    let b = entries_map(before).insert(key, value);
    assert forall|k: Seq<char>| #[trigger] a.contains_key(k) <==> b.contains_key(k) by {
        if a.contains_key(k) {
            let p = position_of(new, k);
            assert(before[p].0@ == k);
        }
        if b.contains_key(k) {
            if k == key {
                assert(new[i].0@ == k);
            } else {
                let p = position_of(before, k);
                assert(new[p].0@ == k);
            }
        }
    }
    assert forall|k: Seq<char>| #[trigger] a.contains_key(k) implies a[k] == b[k] by {
        let p = position_of(new, k);
        lemma_position(new, p);
        lemma_position(before, p);
    }
    assert(a =~= b);
}

proof fn lemma_pushed_map(before: Seq<(String, String)>, key: String, value: String)
    requires
        distinct_keys(before),
        !has_key(before, key@),
    ensures
        distinct_keys(before.push((key, value))),
        entries_map(before.push((key, value))) == entries_map(before).insert(key@, value@),
{
    let new = before.push((key, value));
    assert forall|a: int, b: int| 0 <= a < b < new.len() implies (#[trigger] new[a]).0@ != (
    #[trigger] new[b]).0@ by {
        if b < before.len() {
            assert(before[a].0@ != before[b].0@);
        } else {
            assert(before[a].0@ != key@);
        }
    }
    let a = entries_map(new);
    let b = entries_map(before).insert(key@, value@);
    assert forall|k: Seq<char>| #[trigger] a.contains_key(k) <==> b.contains_key(k) by {
        if a.contains_key(k) {
            let p = position_of(new, k);
            if p < before.len() {
                assert(before[p].0@ == k);
            }
        }
        if b.contains_key(k) {
            if k == key@ {
                assert(new[before.len() as int].0@ == k);
            } else {
                let p = position_of(before, k);
                assert(new[p].0@ == k);
            }
        }
    }
    assert forall|k: Seq<char>| #[trigger] a.contains_key(k) implies a[k] == b[k] by {
        let p = position_of(new, k);
        lemma_position(new, p);
        if p < before.len() {
            lemma_position(before, p);
        }
    }
    assert(a =~= b);
}

proof fn lemma_removed_map(before: Seq<(String, String)>, i: int)
    requires
        distinct_keys(before),
        0 <= i < before.len(),
    ensures
        distinct_keys(before.remove(i)),
        entries_map(before.remove(i)) == entries_map(before).remove(before[i].0@),
{
    let new = before.remove(i);
    let old_index = |j: int| if j < i { j } else { j + 1 };
    assert forall|a: int, b: int| 0 <= a < b < new.len() implies (#[trigger] new[a]).0@ != (
    #[trigger] new[b]).0@ by {
        assert(before[old_index(a)].0@ != before[old_index(b)].0@);
    }
    let a = entries_map(new);
    let b = entries_map(before).remove(before[i].0@);
    assert forall|k: Seq<char>| #[trigger] a.contains_key(k) <==> b.contains_key(k) by {
        if a.contains_key(k) {
            let p = position_of(new, k);
            assert(before[old_index(p)].0@ == k);
            assert(before[old_index(p)].0@ != before[i].0@) by {
                if old_index(p) < i {
                } else {
                    assert(before[i].0@ != before[old_index(p)].0@);
                }
            }
        }
        if b.contains_key(k) {
            let p = position_of(before, k);
            let q = if p < i { p } else { p - 1 };
            assert(new[q].0@ == k);
        }
    }
    assert forall|k: Seq<char>| #[trigger] a.contains_key(k) implies a[k] == b[k] by {
        let p = position_of(new, k);
        lemma_position(new, p);
        lemma_position(before, old_index(p));
    }
    assert(a =~= b);
}

} // verus!
