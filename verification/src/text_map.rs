//! A small map from text keys to values that keeps its keys in the order in
//! which they first arrived.
//!
//! The map is meant for the handful of tags and headers that travel with a
//! span: it is a list of entries, and finding a key walks the list.

use vstd::prelude::*;

verus! {

/// A map keyed by strings. Each key occurs once; storing under a key again
/// replaces its value and leaves the key where it stands.
#[derive(Debug)]
pub struct TextMap<V> {
    entries: Vec<(String, V)>,
}

/// Whether `key` occurs among `entries`.
spec fn has_key<V>(entries: Seq<(String, V)>, key: Seq<char>) -> bool {
    exists|i: int| 0 <= i < entries.len() && entries[i].0@ == key
}

/// The position of `key` among `entries`, where it occurs.
spec fn position_of<V>(entries: Seq<(String, V)>, key: Seq<char>) -> int {
    choose|i: int| 0 <= i < entries.len() && entries[i].0@ == key
}

/// No key occurs twice.
spec fn distinct_keys<V>(entries: Seq<(String, V)>) -> bool {
    forall|i: int, j: int|
        0 <= i < entries.len() && 0 <= j < entries.len() && entries[i].0@ == entries[j].0@ ==> i
            == j
}

/// The keys of `entries`, in order.
spec fn keys_of<V>(entries: Seq<(String, V)>) -> Seq<Seq<char>> {
    Seq::new(entries.len(), |i: int| entries[i].0@)
}

/// The map that `entries` stand for.
spec fn map_of<V>(entries: Seq<(String, V)>) -> Map<Seq<char>, V> {
    Map::new(
        |k: Seq<char>| has_key(entries, k),
        |k: Seq<char>| entries[position_of(entries, k)].1,
    )
}

/// With distinct keys, the entry at `i` is the one that its key finds.
proof fn lemma_position_of<V>(entries: Seq<(String, V)>, i: int)
    requires
        distinct_keys(entries),
        0 <= i < entries.len(),
    ensures
        has_key(entries, entries[i].0@),
        position_of(entries, entries[i].0@) == i,
        map_of(entries).contains_key(entries[i].0@),
        map_of(entries)[entries[i].0@] == entries[i].1,
{
}

/// A key is in the map where, and only where, it is among the keys.
proof fn lemma_keys_of<V>(entries: Seq<(String, V)>)
    ensures
        forall|k: Seq<char>|
            #![trigger map_of(entries).contains_key(k)]
            #![trigger keys_of(entries).contains(k)]
            #![trigger has_key(entries, k)]
            (map_of(entries).contains_key(k) <==> keys_of(entries).contains(k)) && (has_key(
                entries,
                k,
            ) <==> keys_of(entries).contains(k)),
        distinct_keys(entries) <==> keys_of(entries).no_duplicates(),
{
    let keys = keys_of(entries);
    assert forall|k: Seq<char>|
        #![trigger map_of(entries).contains_key(k)]
        #![trigger keys_of(entries).contains(k)]
        #![trigger has_key(entries, k)]
        (map_of(entries).contains_key(k) <==> keys.contains(k)) && (has_key(entries, k)
            <==> keys.contains(k)) by {
        if has_key(entries, k) {
            let i = position_of(entries, k);
            assert(keys[i] == k);
        }
        if keys.contains(k) {
            let i = keys.index_of(k);
            assert(entries[i].0@ == k);
        }
    }
    if distinct_keys(entries) {
        assert forall|i: int, j: int| 0 <= i < keys.len() && 0 <= j < keys.len() && i != j implies keys[i]
            != keys[j] by {
            assert(entries[i].0@ == keys[i] && entries[j].0@ == keys[j]);
        }
    }
    if keys.no_duplicates() {
        assert forall|i: int, j: int|
            0 <= i < entries.len() && 0 <= j < entries.len() && entries[i].0@
                == entries[j].0@ implies i == j by {
            assert(keys[i] == keys[j]);
        }
    }
}

/// Distinct keys are as many as the entries that hold them.
proof fn lemma_key_count<V>(entries: Seq<(String, V)>)
    requires
        distinct_keys(entries),
    ensures
        map_of(entries).dom().finite(),
        map_of(entries).dom().len() == entries.len(),
    decreases entries.len(),
{
    let keys = map_of(entries).dom();
    if entries.len() == 0 {
        assert(keys =~= Set::<Seq<char>>::empty());
    } else {
        let rest = entries.drop_last();
        let last = entries.last().0@;
        let earlier = map_of(rest).dom();
        lemma_key_count(rest);
        assert forall|k: Seq<char>| keys.contains(k) <==> earlier.insert(last).contains(k) by {
            if has_key(entries, k) {
                let i = position_of(entries, k);
                if i < rest.len() {
                    assert(rest[i].0@ == k);
                }
            }
            if has_key(rest, k) {
                let i = position_of(rest, k);
                assert(entries[i].0@ == k);
            }
            if k == last {
                assert(entries[entries.len() - 1].0@ == k);
            }
        }
        assert(keys =~= earlier.insert(last));
        if has_key(rest, last) {
            let i = position_of(rest, last);
            assert(entries[i].0@ == entries[entries.len() - 1].0@);
        }
    }
}

/// A new value in the place of an old one leaves the keys as they are and
/// changes the map at that key alone.
proof fn lemma_replaced<V>(before: Seq<(String, V)>, after: Seq<(String, V)>, at: int, value: V)
    requires
        distinct_keys(before),
        0 <= at < before.len(),
        after == before.update(at, (before[at].0, value)),
    ensures
        distinct_keys(after),
        keys_of(after) == keys_of(before),
        map_of(after) == map_of(before).insert(before[at].0@, value),
{
    let key = before[at].0@;
    assert(keys_of(after) =~= keys_of(before));
    lemma_keys_of(before);
    lemma_keys_of(after);
    assert forall|k: Seq<char>| #[trigger] has_key(after, k) implies map_of(after)[k] == (if k == key {
        value
    } else {
        map_of(before)[k]
    }) by {
        let j = position_of(after, k);
        assert(before[j].0@ == k);
        lemma_position_of(before, j);
        lemma_position_of(after, at);
    }
    assert(map_of(after) =~= map_of(before).insert(key, value));
}

/// An entry under a new key, put last, adds that key to the keys and to the
/// map.
proof fn lemma_appended<V>(before: Seq<(String, V)>, key: String, value: V)
    requires
        distinct_keys(before),
        !has_key(before, key@),
    ensures
        distinct_keys(before.push((key, value))),
        keys_of(before.push((key, value))) == keys_of(before).push(key@),
        map_of(before.push((key, value))) == map_of(before).insert(key@, value),
{
    let after = before.push((key, value));
    assert(keys_of(after) =~= keys_of(before).push(key@));
    assert forall|i: int, j: int|
        0 <= i < after.len() && 0 <= j < after.len() && after[i].0@ == after[j].0@ implies i
        == j by {
        if i < before.len() {
            assert(before[i].0@ == after[i].0@);
        }
        if j < before.len() {
            assert(before[j].0@ == after[j].0@);
        }
    }
    assert forall|k: Seq<char>| has_key(after, k) <==> has_key(before, k) || k == key@ by {
        if has_key(before, k) {
            let j = position_of(before, k);
            assert(after[j].0@ == k);
        }
        if has_key(after, k) {
            let j = position_of(after, k);
            if j < before.len() {
                assert(before[j].0@ == k);
            }
        }
        if k == key@ {
            assert(after[before.len() as int].0@ == k);
        }
    }
    assert forall|k: Seq<char>| #[trigger] has_key(after, k) implies map_of(after)[k] == (if k
        == key@ {
        value
    } else {
        map_of(before)[k]
    }) by {
        let j = position_of(after, k);
        lemma_position_of(after, j);
        if j < before.len() {
            assert(before[j].0@ == k);
            lemma_position_of(before, j);
        }
    }
    assert(map_of(after) =~= map_of(before).insert(key@, value));
}

impl<V> TextMap<V> {
    #[verifier::type_invariant]
    spec fn well_formed(&self) -> bool {
        distinct_keys(self.entries@)
    }

    /// The keys, in the order in which they first arrived.
    pub closed spec fn keys(&self) -> Seq<Seq<char>> {
        keys_of(self.entries@)
    }

    /// The map as a mathematical map from key text to value.
    pub closed spec fn view(&self) -> Map<Seq<char>, V> {
        map_of(self.entries@)
    }

    /// The map holds a value for each of its keys, and for nothing else.
    pub proof fn lemma_keys(&self)
        ensures
            forall|k: Seq<char>|
                #![trigger self@.contains_key(k)]
                #![trigger self.keys().contains(k)]
                self@.contains_key(k) <==> self.keys().contains(k),
    {
        lemma_keys_of(self.entries@);
    }

    /// An empty map.
    pub fn new() -> (m: Self)
        ensures
            m@ == Map::<Seq<char>, V>::empty(),
            m.keys() == Seq::<Seq<char>>::empty(),
    {
        let m = TextMap { entries: Vec::new() };
        assert(m@ =~= Map::<Seq<char>, V>::empty());
        assert(m.keys() =~= Seq::<Seq<char>>::empty());
        m
    }

    /// The number of entries.
    pub fn len(&self) -> (n: usize)
        ensures
            n == self.keys().len(),
            self.keys().no_duplicates(),
            self@.dom().finite(),
            n == self@.len(),
    {
        proof {
            use_type_invariant(self);
            lemma_key_count(self.entries@);
            lemma_keys_of(self.entries@);
        }
        self.entries.len()
    }

    /// Whether the map has no entry.
    pub fn is_empty(&self) -> (empty: bool)
        ensures
            empty == (self.keys().len() == 0),
            empty == (self@ == Map::<Seq<char>, V>::empty()),
    {
        let empty = self.entries.len() == 0;
        proof {
            if empty {
                assert(self@ =~= Map::<Seq<char>, V>::empty());
            } else {
                assert(has_key(self.entries@, self.entries@[0].0@));
                assert(self@.contains_key(self.entries@[0].0@));
            }
        }
        empty
    }

    /// The entry at position `i` in the order of the keys; `None` from `len()`
    /// on.
    pub fn entry(&self, i: usize) -> (e: Option<(&String, &V)>)
        ensures
            match e {
                Some((key, value)) => {
                    &&& i < self.keys().len()
                    &&& key@ == self.keys()[i as int]
                    &&& self@.contains_key(key@)
                    &&& *value == self@[key@]
                },
                None => i >= self.keys().len(),
            },
    {
        proof {
            use_type_invariant(self);
        }
        if i < self.entries.len() {
            proof {
                lemma_position_of(self.entries@, i as int);
            }
            Some((&self.entries[i].0, &self.entries[i].1))
        } else {
            None
        }
    }

    /// Whether a value is stored under `key`.
    pub fn contains_key(&self, key: &str) -> (found: bool)
        ensures
            found == self@.contains_key(key@),
    {
        self.get(key).is_some()
    }

    /// The value stored under `key`, if there is one.
    pub fn get(&self, key: &str) -> (v: Option<&V>)
        ensures
            match v {
                Some(x) => self@.contains_key(key@) && *x == self@[key@],
                None => !self@.contains_key(key@),
            },
    {
        proof {
            use_type_invariant(self);
        }
        let wanted = key.to_owned();
        let mut i: usize = 0;
        while i < self.entries.len()
            invariant
                0 <= i <= self.entries.len(),
                wanted@ == key@,
                distinct_keys(self.entries@),
                forall|j: int| 0 <= j < i ==> self.entries@[j].0@ != key@,
            decreases self.entries.len() - i,
        {
            if self.entries[i].0 == wanted {
                proof {
                    lemma_position_of(self.entries@, i as int);
                }
                return Some(&self.entries[i].1);
            }
            i += 1;
        }
        None
    }

    /// Stores `value` under `key`. A key that the map holds already stays
    /// where it is and gets the new value; a new key goes last.
    pub fn insert(&mut self, key: String, value: V)
        ensures
            final(self)@ == old(self)@.insert(key@, value),
            final(self).keys() == if old(self)@.contains_key(key@) {
                old(self).keys()
            } else {
                old(self).keys().push(key@)
            },
    {
        proof {
            use_type_invariant(&*self);
        }
        let mut entries: Vec<(String, V)> = Vec::new();
        std::mem::swap(&mut self.entries, &mut entries);
        let ghost before = entries@;
        let mut i: usize = 0;
        while i < entries.len()
            invariant
                0 <= i <= entries.len(),
                entries@ == before,
                before == old(self).entries@,
                distinct_keys(before),
                forall|j: int| 0 <= j < i ==> entries@[j].0@ != key@,
            decreases entries.len() - i,
        {
            if entries[i].0 == key {
                entries[i].1 = value;
                proof {
                    lemma_position_of(before, i as int);
                    lemma_replaced(before, entries@, i as int, value);
                }
                self.entries = entries;
                return ;
            }
            i += 1;
        }
        proof {
            lemma_appended(before, key, value);
        }
        entries.push((key, value));
        self.entries = entries;
    }
}

impl TextMap<String> {
    /// The map with each value as its text.
    pub open spec fn texts(&self) -> Map<Seq<char>, Seq<char>> {
        Map::new(|k: Seq<char>| self@.contains_key(k), |k: Seq<char>| self@[k]@)
    }
}

impl<V: Clone> Clone for TextMap<V> {
    /// A map with the same keys in the same order, each with a clone of its
    /// value.
    fn clone(&self) -> (copy: Self)
        ensures
            copy.keys() == self.keys(),
            copy@.dom() == self@.dom(),
            forall|k: Seq<char>| #[trigger] self@.contains_key(k) ==> cloned(self@[k], copy@[k]),
    {
        proof {
            use_type_invariant(self);
        }
        let mut entries: Vec<(String, V)> = Vec::new();
        let mut i: usize = 0;
        while i < self.entries.len()
            invariant
                0 <= i <= self.entries.len(),
                entries.len() == i,
                forall|j: int|
                    0 <= j < i ==> {
                        &&& (#[trigger] entries[j]).0@ == self.entries[j].0@
                        &&& cloned(self.entries[j].1, entries[j].1)
                    },
            decreases self.entries.len() - i,
        {
            let key = self.entries[i].0.clone();
            let value = self.entries[i].1.clone();
            entries.push((key, value));
            i += 1;
        }
        proof {
            let ours = self.entries@;
            let theirs = entries@;
            assert(keys_of(theirs) =~= keys_of(ours));
            lemma_keys_of(ours);
            lemma_keys_of(theirs);
            assert(map_of(theirs).dom() =~= map_of(ours).dom());
            assert forall|k: Seq<char>| #[trigger] map_of(ours).contains_key(k) implies cloned(
                map_of(ours)[k],
                map_of(theirs)[k],
            ) by {
                let j = position_of(ours, k);
                lemma_position_of(ours, j);
                assert(theirs[j].0@ == k);
                lemma_position_of(theirs, j);
            }
        }
        TextMap { entries }
    }
}

} // verus!
