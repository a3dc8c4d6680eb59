//! A small map from names to values that keeps its entries in the order in
//! which their names first came.

use vstd::prelude::*;
use vstd::string::*;
use crate::text::text_eq;

verus! {

/// A map from names to values, held as a list of pairs in which no name
/// occurs twice.
pub struct InfoMap<V> {
    entries: Vec<(String, V)>,
}

/// Some entry of `entries` is named `key`.
pub open spec fn has_key<V>(entries: Seq<(String, V)>, key: Seq<char>) -> bool {
    exists|i: int| 0 <= i < entries.len() && (#[trigger] entries[i]).0@ == key
}

/// Where an entry of `entries` stands that is named `key`.
pub open spec fn place_of<V>(entries: Seq<(String, V)>, key: Seq<char>) -> int {
    choose|i: int| 0 <= i < entries.len() && (#[trigger] entries[i]).0@ == key
}

/// The value of an entry of `entries` that is named `key`.
pub open spec fn value_of<V>(entries: Seq<(String, V)>, key: Seq<char>) -> V {
    entries[place_of(entries, key)].1
}

/// `entries` with `value` under `key`: in the place of the entry of that
/// name, or at the end where there is none.
pub open spec fn with_entry<V>(entries: Seq<(String, V)>, key: String, value: V) -> Seq<
    (String, V),
> {
    if has_key(entries, key@) {
        entries.update(place_of(entries, key@), (key, value))
    } else {
        entries.push((key, value))
    }
}

/// No name occurs twice in `entries`.
pub open spec fn distinct_keys<V>(entries: Seq<(String, V)>) -> bool {
    forall|i: int, j: int|
        0 <= i < entries.len() && 0 <= j < entries.len() && i != j ==> (#[trigger] entries[i]).0@
            != (#[trigger] entries[j]).0@
}

/// The map that `entries` stands for.
pub open spec fn map_of<V>(entries: Seq<(String, V)>) -> Map<Seq<char>, V> {
    Map::new(|key: Seq<char>| has_key(entries, key), |key: Seq<char>| value_of(entries, key))
}

impl<V> View for InfoMap<V> {
    type V = Map<Seq<char>, V>;

    closed spec fn view(&self) -> Map<Seq<char>, V> {
        map_of(self.entries@)
    }
}

impl<V> InfoMap<V> {
    /// The entries, in the order in which their names first came.
    pub closed spec fn pairs_view(&self) -> Seq<(String, V)> {
        self.entries@
    }

    /// The map is in order: no name occurs twice among its entries.
    pub open spec fn wf(&self) -> bool {
        &&& distinct_keys(self.pairs_view())
        &&& self@ == map_of(self.pairs_view())
    }

    /// A map without entries.
    pub fn new() -> (map: InfoMap<V>)
        ensures
            map.wf(),
            map@ == Map::<Seq<char>, V>::empty(),
            map.pairs_view().len() == 0,
    {
        let map = InfoMap { entries: Vec::new() };
        assert(map@ =~= Map::<Seq<char>, V>::empty());
        map
    }

    /// Where the entry named `key` stands, if there is one.
    fn position(&self, key: &str) -> (found: Option<usize>)
        ensures
            match found {
                Some(i) => i < self.entries@.len() && self.entries@[i as int].0@ == key@,
                None => !has_key(self.entries@, key@),
            },
    {
        let mut i: usize = 0;
        while i < self.entries.len()
            invariant
                i <= self.entries@.len(),
                forall|j: int| 0 <= j < i ==> (#[trigger] self.entries@[j]).0@ != key@,
            decreases self.entries@.len() - i,
        {
            if text_eq(self.entries[i].0.as_str(), key) {
                return Some(i);
            }
            i += 1;
        }
        None
    }

    /// The value under `key`, if there is one.
    pub fn get(&self, key: &str) -> (value: Option<&V>)
        requires
            self.wf(),
        ensures
            match value {
                Some(v) => self@.contains_key(key@) && *v == self@[key@],
                None => !self@.contains_key(key@),
            },
    {
        match self.position(key) {
            Some(i) => {
                assert(has_key(self.entries@, key@));
                Some(&self.entries[i].1)
            },
            None => None,
        }
    }

    /// Puts `value` under `key`, in place of what was there. An entry that
    /// is replaced keeps its place; a new one goes to the end.
    pub fn insert(&mut self, key: String, value: V)
        requires
            old(self).wf(),
        ensures
            final(self).wf(),
            final(self)@ == old(self)@.insert(key@, value),
            final(self).pairs_view() == with_entry(old(self).pairs_view(), key, value),
    {
        let ghost before = self.entries@;
        match self.position(key.as_str()) {
            Some(i) => {
                assert(has_key(before, key@) && place_of(before, key@) == i);
                self.entries.set(i, (key, value));
                let ghost after = self.entries@;
                assert(distinct_keys(after)) by {
                    assert forall|a: int, b: int|
                        0 <= a < after.len() && 0 <= b < after.len() && a != b implies (
                    #[trigger] after[a]).0@ != (#[trigger] after[b]).0@ by {
                        assert(before[a].0@ != before[b].0@);
                    }
                }
                assert(map_of(after) =~= map_of(before).insert(key@, value)) by {
                    assert forall|k: Seq<char>| has_key(after, k) == (has_key(before, k) || k
                        == key@) by {
                        if has_key(after, k) {
                            let j = choose|j: int|
                                0 <= j < after.len() && (#[trigger] after[j]).0@ == k;
                            assert(before[j].0@ == k);
                        }
                        if has_key(before, k) {
                            let j = choose|j: int|
                                0 <= j < before.len() && (#[trigger] before[j]).0@ == k;
                            assert(after[j].0@ == k);
                        }
                        assert(after[i as int].0@ == key@);
                    }
                    assert forall|k: Seq<char>| has_key(after, k) implies value_of(after, k) == (
                    if k == key@ {
                        value
                    } else {
                        value_of(before, k)
                    }) by {
                        let j = choose|j: int|
                            0 <= j < after.len() && (#[trigger] after[j]).0@ == k;
                        if k == key@ {
                            assert(after[i as int].0@ == k);
                        } else {
                            assert(before[j].0@ == k);
                            let m = choose|m: int|
                                0 <= m < before.len() && (#[trigger] before[m]).0@ == k;
                            assert(after[m].0@ == k);
                        }
                    }
                }
            },
            None => {
                self.entries.push((key, value));
                let ghost after = self.entries@;
                assert(distinct_keys(after)) by {
                    assert forall|a: int, b: int|
                        0 <= a < after.len() && 0 <= b < after.len() && a != b implies (
                    #[trigger] after[a]).0@ != (#[trigger] after[b]).0@ by {
                        if a < before.len() {
                            assert(after[a] == before[a]);
                        }
                        if b < before.len() {
                            assert(after[b] == before[b]);
                        }
                    }
                }
                assert(map_of(after) =~= map_of(before).insert(key@, value)) by {
                    assert forall|k: Seq<char>| has_key(after, k) == (has_key(before, k) || k
                        == key@) by {
                        if has_key(after, k) {
                            let j = choose|j: int|
                                0 <= j < after.len() && (#[trigger] after[j]).0@ == k;
                            if j < before.len() {
                                assert(before[j].0@ == k);
                            }
                        }
                        if has_key(before, k) {
                            let j = choose|j: int|
                                0 <= j < before.len() && (#[trigger] before[j]).0@ == k;
                            assert(after[j].0@ == k);
                        }
                        assert(after[before.len() as int].0@ == key@);
                    }
                    assert forall|k: Seq<char>| has_key(after, k) implies value_of(after, k) == (
                    if k == key@ {
                        value
                    } else {
                        value_of(before, k)
                    }) by {
                        let j = choose|j: int|
                            0 <= j < after.len() && (#[trigger] after[j]).0@ == k;
                        if k == key@ {
                            assert(after[before.len() as int].0@ == k);
                        } else {
                            assert(before[j].0@ == k);
                            let m = choose|m: int|
                                0 <= m < before.len() && (#[trigger] before[m]).0@ == k;
                            assert(after[m].0@ == k);
                        }
                    }
                }
            },
        }
    }

    /// The entries, in the order in which their names first came: each
    /// name once, with the value that the map holds under it.
    pub fn pairs(&self) -> (pairs: &Vec<(String, V)>)
        ensures
            pairs@ == self.pairs_view(),
    {
        &self.entries
    }
}

} // verus!
