//! An association map whose keys are compared by their mathematical model.

use vstd::prelude::*;

verus! {

/// A key: two keys name one entry exactly when their models agree.
pub trait MapKey: Sized {
    type Model;

    spec fn model(&self) -> Self::Model;

    fn same_key(&self, other: &Self) -> (same: bool)
        ensures
            same == (self.model() == other.model()),
    ;

    fn copy_key(&self) -> (copy: Self)
        ensures
            copy.model() == self.model(),
    ;
}

/// Entries in insertion order, one per key.
pub struct AssocMap<K: MapKey, V> {
    entries: Vec<(K, V)>,
}

/// No key occurs twice.
pub open spec fn distinct_keys<K: MapKey, V>(entries: Seq<(K, V)>) -> bool {
    forall|i: int, j: int|
        0 <= i < j < entries.len() ==> (#[trigger] entries[i]).0.model() != (#[trigger] entries[j]).0.model()
}

/// The position of a key, or a negative number.
pub open spec fn key_position<K: MapKey, V>(entries: Seq<(K, V)>, key: K::Model) -> int
    decreases entries.len(),
{
    if entries.len() == 0 {
        -1
    } else if entries.last().0.model() == key {
        entries.len() - 1
    } else {
        key_position(entries.drop_last(), key)
    }
}

/// What the entries hold, as a map.
pub open spec fn entries_map<K: MapKey, V>(entries: Seq<(K, V)>) -> Map<K::Model, V> {
    Map::new(
        |key: K::Model| key_position(entries, key) >= 0,
        |key: K::Model| entries[key_position(entries, key)].1,
    )
}

pub(crate) proof fn lemma_key_position<K: MapKey, V>(entries: Seq<(K, V)>, key: K::Model)
    ensures
        key_position(entries, key) < entries.len(),
        key_position(entries, key) >= 0 ==> entries[key_position(entries, key)].0.model() == key,
        key_position(entries, key) < 0 ==> forall|i: int|
            0 <= i < entries.len() ==> (#[trigger] entries[i]).0.model() != key,
    decreases entries.len(),
{
    if entries.len() > 0 && entries.last().0.model() != key {
        lemma_key_position(entries.drop_last(), key);
        assert forall|i: int| key_position(entries, key) < 0 && 0 <= i < entries.len() implies (
        #[trigger] entries[i]).0.model() != key by {
            if i < entries.len() - 1 {
                assert(entries.drop_last()[i] == entries[i]);
            }
        }
    }
}

proof fn lemma_position_of<K: MapKey, V>(entries: Seq<(K, V)>, i: int)
    requires
        distinct_keys(entries),
        0 <= i < entries.len(),
    ensures
        key_position(entries, entries[i].0.model()) == i,
        entries_map(entries).dom().contains(entries[i].0.model()),
        entries_map(entries)[entries[i].0.model()] == entries[i].1,
{
    let key = entries[i].0.model();
    lemma_key_position(entries, key);
    let p = key_position(entries, key);
    if p >= 0 {
        assert(entries[p].0.model() == entries[i].0.model());
    } else {
        assert(entries[i].0.model() != key);
    }
}

/// Every entry is in the map, and the map holds nothing else.
pub(crate) proof fn lemma_entries_map<K: MapKey, V>(entries: Seq<(K, V)>)
    requires
        distinct_keys(entries),
    ensures
        forall|i: int|
            0 <= i < entries.len() ==> entries_map(entries).dom().contains(
                (#[trigger] entries[i]).0.model(),
            ) && entries_map(entries)[entries[i].0.model()] == entries[i].1,
        forall|key: K::Model| #[trigger]
            entries_map(entries).dom().contains(key) ==> (0 <= key_position(entries, key)
                < entries.len() && entries[key_position(entries, key)].0.model() == key
                && entries_map(entries)[key] == entries[key_position(entries, key)].1),
{
    assert forall|i: int| 0 <= i < entries.len() implies entries_map(entries).dom().contains(
        (#[trigger] entries[i]).0.model(),
    ) && entries_map(entries)[entries[i].0.model()] == entries[i].1 by {
        lemma_position_of(entries, i);
    }
    assert forall|key: K::Model| #[trigger] entries_map(entries).dom().contains(key) implies (0
        <= key_position(entries, key) < entries.len() && entries[key_position(
        entries,
        key,
    )].0.model() == key && entries_map(entries)[key] == entries[key_position(entries, key)].1) by {
        lemma_key_position(entries, key);
    }
}

/// Two entry lists with the same set of pairs hold one map.
pub(crate) proof fn lemma_same_map<K: MapKey, V>(entries: Seq<(K, V)>, map: Map<K::Model, V>)
    requires
        distinct_keys(entries),
        forall|i: int|
            0 <= i < entries.len() ==> map.dom().contains((#[trigger] entries[i]).0.model())
                && map[entries[i].0.model()] == entries[i].1,
        forall|key: K::Model| #[trigger]
            map.dom().contains(key) ==> exists|i: int|
                0 <= i < entries.len() && (#[trigger] entries[i]).0.model() == key,
    ensures
        entries_map(entries) == map,
{
    lemma_entries_map(entries);
    assert forall|key: K::Model| map.dom().contains(key) implies entries_map(entries).dom().contains(
        key,
    ) by {
        let i = choose|i: int| 0 <= i < entries.len() && (#[trigger] entries[i]).0.model() == key;
        assert(entries_map(entries).dom().contains(entries[i].0.model()));
    }
    assert(entries_map(entries) =~= map);
}

pub(crate) proof fn lemma_map_len<K: MapKey, V>(entries: Seq<(K, V)>)
    requires
        distinct_keys(entries),
    ensures
        entries_map(entries).dom().finite(),
        entries_map(entries).dom().len() == entries.len(),
    decreases entries.len(),
{
    lemma_entries_map(entries);
    if entries.len() == 0 {
        assert(entries_map(entries).dom() =~= Set::empty());
    } else {
        let rest = entries.drop_last();
        assert forall|i: int, j: int| 0 <= i < j < rest.len() implies (#[trigger] rest[i]).0.model() != (
        #[trigger] rest[j]).0.model() by {
            assert(rest[i] == entries[i] && rest[j] == entries[j]);
        }
        lemma_map_len(rest);
        lemma_entries_map(rest);
        let last = entries.last().0.model();
        assert(!entries_map(rest).dom().contains(last)) by {
            if entries_map(rest).dom().contains(last) {
                let p = key_position(rest, last);
                assert(rest[p] == entries[p]);
                assert(entries[p].0.model() != entries[entries.len() - 1].0.model());
            }
        }
        assert forall|key: K::Model| entries_map(entries).dom().contains(key) implies entries_map(
            rest,
        ).dom().insert(last).contains(key) by {
            let p = key_position(entries, key);
            if p < entries.len() - 1 {
                assert(rest[p].0.model() == key);
            }
        }
        assert forall|key: K::Model| entries_map(rest).dom().insert(last).contains(key) implies entries_map(
            entries,
        ).dom().contains(key) by {
            if key != last {
                let p = key_position(rest, key);
                assert(entries[p].0.model() == key);
            } else {
                assert(entries[entries.len() - 1].0.model() == key);
            }
        }
        assert(entries_map(entries).dom() =~= entries_map(rest).dom().insert(last));
    }
}

impl<K: MapKey, V> View for AssocMap<K, V> {
    type V = Map<K::Model, V>;

    closed spec fn view(&self) -> Map<K::Model, V> {
        entries_map(self.entries@)
    }
}

impl<K: MapKey, V> AssocMap<K, V> {
    #[verifier::type_invariant]
    spec fn one_entry_per_key(self) -> bool {
        distinct_keys(self.entries@)
    }

    /// The empty map.
    pub fn new() -> (map: Self)
        ensures
            map@ == Map::<K::Model, V>::empty(),
    {
        let map = AssocMap { entries: Vec::new() };
        assert(map@ =~= Map::<K::Model, V>::empty());
        map
    }

    /// Number of entries.
    pub fn len(&self) -> (n: usize)
        ensures
            n == self@.dom().len(),
            self@.dom().finite(),
    {
        proof {
            use_type_invariant(self);
            lemma_map_len(self.entries@);
        }
        self.entries.len()
    }

    /// The keys in the order of their entries.
    pub closed spec fn key_list(&self) -> Seq<K::Model> {
        Seq::new(self.entries@.len(), |i: int| self.entries@[i].0.model())
    }

    /// Number of positions for `entry_at`; each key has exactly one.
    pub fn count(&self) -> (n: usize)
        ensures
            n == self.key_list().len(),
            self.key_list().no_duplicates(),
            forall|i: int|
                0 <= i < self.key_list().len() ==> self@.dom().contains(
                    #[trigger] self.key_list()[i],
                ),
            forall|key: K::Model| #[trigger]
                self@.dom().contains(key) ==> self.key_list().contains(key),
    {
        proof {
            use_type_invariant(self);
            lemma_entries_map(self.entries@);
            assert forall|i: int, j: int|
                0 <= i < self.key_list().len() && 0 <= j < self.key_list().len() && i
                    != j implies self.key_list()[i] != self.key_list()[j] by {
                if i < j {
                    assert(self.entries@[i].0.model() != self.entries@[j].0.model());
                } else {
                    assert(self.entries@[j].0.model() != self.entries@[i].0.model());
                }
            }
            assert forall|i: int| 0 <= i < self.key_list().len() implies self@.dom().contains(
                #[trigger] self.key_list()[i],
            ) by {
                assert(self@.dom().contains(self.entries@[i].0.model()));
            }
            assert forall|key: K::Model| #[trigger]
                self@.dom().contains(key) implies self.key_list().contains(key) by {
                let p = key_position(self.entries@, key);
                assert(self.key_list()[p] == key);
            }
        }
        self.entries.len()
    }

    /// The entry at a position.
    pub fn entry_at(&self, index: usize) -> (entry: (&K, &V))
        requires
            index < self.key_list().len(),
        ensures
            entry.0.model() == self.key_list()[index as int],
            self@.dom().contains(entry.0.model()),
            *entry.1 == self@[entry.0.model()],
    {
        proof {
            use_type_invariant(self);
            lemma_entries_map(self.entries@);
        }
        let entry = &self.entries[index];
        (&entry.0, &entry.1)
    }

    /// Whether there is no entry.
    pub fn is_empty(&self) -> (empty: bool)
        ensures
            empty == (self@ == Map::<K::Model, V>::empty()),
    {
        proof {
            use_type_invariant(self);
            lemma_entries_map(self.entries@);
            if self.entries@.len() == 0 {
                assert(self@ =~= Map::<K::Model, V>::empty());
            } else {
                assert(self@.dom().contains(self.entries@[0].0.model()));
            }
        }
        self.entries.len() == 0
    }

    fn position(&self, key: &K) -> (found: Option<usize>)
        ensures
            match found {
                Some(i) => i < self.entries@.len() && self.entries@[i as int].0.model() == key.model(),
                None => forall|i: int|
                    0 <= i < self.entries@.len() ==> (#[trigger] self.entries@[i]).0.model()
                        != key.model(),
            },
    {
        let mut i: usize = 0;
        while i < self.entries.len()
            invariant
                i <= self.entries@.len(),
                forall|j: int|
                    0 <= j < i ==> (#[trigger] self.entries@[j]).0.model() != key.model(),
            decreases self.entries@.len() - i,
        {
            if self.entries[i].0.same_key(key) {
                return Some(i);
            }
            i += 1;
        }
        None
    }

    /// Whether the key has an entry.
    pub fn contains_key(&self, key: &K) -> (present: bool)
        ensures
            present == self@.dom().contains(key.model()),
    {
        proof {
            use_type_invariant(self);
            lemma_entries_map(self.entries@);
        }
        match self.position(key) {
            Some(_) => true,
            None => false,
        }
    }

    /// The value of a key.
    pub fn get(&self, key: &K) -> (value: Option<&V>)
        ensures
            match value {
                Some(value) => self@.dom().contains(key.model()) && *value == self@[key.model()],
                None => !self@.dom().contains(key.model()),
            },
    {
        proof {
            use_type_invariant(self);
            lemma_entries_map(self.entries@);
        }
        match self.position(key) {
            Some(i) => Some(&self.entries[i].1),
            None => None,
        }
    }

    /// Insert or replace; the value that the key had before is handed back.
    pub fn insert(&mut self, key: K, value: V) -> (previous: Option<V>)
        ensures
            final(self)@ == old(self)@.insert(key.model(), value),
            match previous {
                Some(previous) => old(self)@.dom().contains(key.model()) && previous == old(
                    self,
                )@[key.model()],
                None => !old(self)@.dom().contains(key.model()),
            },
    {
        proof {
            use_type_invariant(&*self);
            lemma_entries_map(self.entries@);
        }
        let ghost before = self.entries@;
        let ghost expected = self@.insert(key.model(), value);
        let found = self.position(&key);
        let mut entries: Vec<(K, V)> = Vec::new();
        core::mem::swap(&mut entries, &mut self.entries);
        let mut previous: Option<V> = None;
        match found {
            Some(i) => {
                entries.push((key, value));
                let (_, replaced) = entries.swap_remove(i);
                previous = Some(replaced);
                proof {
                    assert(before[i as int].1 == replaced);
                    let pushed = before.push((key, value));
                    assert(entries@.len() == before.len());
                    assert forall|j: int| 0 <= j < entries@.len() implies entries@[j] == (if j == i {
                        (key, value)
                    } else {
                        before[j]
                    }) by {}
                    assert(distinct_keys(entries@)) by {
                        assert forall|a: int, b: int| 0 <= a < b < entries@.len() implies (
                        #[trigger] entries@[a]).0.model() != (#[trigger] entries@[b]).0.model() by {
                            assert(before[a].0.model() != before[b].0.model());
                            assert(before[i as int].0.model() == key.model());
                        }
                    }
                    assert forall|k: K::Model| #[trigger] expected.dom().contains(k) implies exists|j: int|
                        0 <= j < entries@.len() && (#[trigger] entries@[j]).0.model() == k by {
                        if k == key.model() {
                            assert(entries@[i as int].0.model() == k);
                        } else {
                            let p = key_position(before, k);
                            assert(entries@[p].0.model() == k);
                        }
                    }
                    assert forall|j: int| 0 <= j < entries@.len() implies expected.dom().contains(
                        (#[trigger] entries@[j]).0.model(),
                    ) && expected[entries@[j].0.model()] == entries@[j].1 by {
                        if j != i {
                            assert(entries@[j] == before[j]);
                            if j < i {
                                assert(before[j].0.model() != before[i as int].0.model());
                            } else {
                                assert(before[i as int].0.model() != before[j].0.model());
                            }
                        }
                    }
                    lemma_same_map(entries@, expected);
                }
            },
            None => {
                entries.push((key, value));
                proof {
                    assert forall|j: int| 0 <= j < before.len() implies entries@[j] == before[j] by {}
                    assert forall|k: K::Model| #[trigger] expected.dom().contains(k) implies exists|j: int|
                        0 <= j < entries@.len() && (#[trigger] entries@[j]).0.model() == k by {
                        if k == key.model() {
                            assert(entries@[before.len() as int].0.model() == k);
                        } else {
                            let p = key_position(before, k);
                            assert(entries@[p].0.model() == k);
                        }
                    }
                    assert forall|j: int| 0 <= j < entries@.len() implies expected.dom().contains(
                        (#[trigger] entries@[j]).0.model(),
                    ) && expected[entries@[j].0.model()] == entries@[j].1 by {
                        if j < before.len() {
                            assert(entries@[j] == before[j]);
                        }
                    }
                    lemma_same_map(entries@, expected);
                }
            },
        }
        self.entries = entries;
        previous
    }

    /// Remove the key's entry; its value is handed back.
    pub fn remove(&mut self, key: &K) -> (removed: Option<V>)
        ensures
            final(self)@ == old(self)@.remove(key.model()),
            match removed {
                Some(removed) => old(self)@.dom().contains(key.model()) && removed == old(
                    self,
                )@[key.model()],
                None => !old(self)@.dom().contains(key.model()),
            },
    {
        proof {
            use_type_invariant(&*self);
            lemma_entries_map(self.entries@);
        }
        let ghost before = self.entries@;
        let ghost expected = self@.remove(key.model());
        match self.position(key) {
            Some(i) => {
                let mut entries: Vec<(K, V)> = Vec::new();
                core::mem::swap(&mut entries, &mut self.entries);
                let (_, removed) = entries.remove(i);
                proof {
                    assert forall|j: int| 0 <= j < entries@.len() implies entries@[j] == before[if j < i {
                        j
                    } else {
                        j + 1
                    }] by {}
                    assert(distinct_keys(entries@)) by {
                        assert forall|a: int, b: int| 0 <= a < b < entries@.len() implies (
                        #[trigger] entries@[a]).0.model() != (#[trigger] entries@[b]).0.model() by {
                            let a0 = if a < i { a } else { a + 1 };
                            let b0 = if b < i { b } else { b + 1 };
                            assert(before[a0].0.model() != before[b0].0.model());
                        }
                    }
                    assert forall|k: K::Model| #[trigger] expected.dom().contains(k) implies exists|j: int|
                        0 <= j < entries@.len() && (#[trigger] entries@[j]).0.model() == k by {
                        let p = key_position(before, k);
                        assert(p != i);
                        let q = if p < i { p } else { p - 1 };
                        assert(entries@[q].0.model() == k);
                    }
                    assert forall|j: int| 0 <= j < entries@.len() implies expected.dom().contains(
                        (#[trigger] entries@[j]).0.model(),
                    ) && expected[entries@[j].0.model()] == entries@[j].1 by {
                        let p = if j < i { j } else { j + 1 };
                        assert(entries@[j] == before[p]);
                        if p < i {
                            assert(before[p].0.model() != before[i as int].0.model());
                        } else {
                            assert(before[i as int].0.model() != before[p].0.model());
                        }
                    }
                    lemma_same_map(entries@, expected);
                }
                self.entries = entries;
                Some(removed)
            },
            None => {
                assert(expected =~= self@);
                None
            },
        }
    }

    /// Drop every entry.
    pub fn clear(&mut self)
        ensures
            final(self)@ == Map::<K::Model, V>::empty(),
    {
        self.entries = Vec::new();
        assert(self@ =~= Map::<K::Model, V>::empty());
    }

    /// Take one entry out, if there is any.
    pub fn take_one(&mut self) -> (taken: Option<(K, V)>)
        ensures
            match taken {
                Some((key, value)) => old(self)@.dom().contains(key.model()) && old(
                    self,
                )@[key.model()] == value && final(self)@ == old(self)@.remove(key.model()),
                None => old(self)@ == Map::<K::Model, V>::empty() && final(self)@ == old(self)@,
            },
            taken is None <==> old(self)@.dom().len() == 0,
            taken is Some ==> final(self)@.dom().len() == old(self)@.dom().len() - 1,
            old(self)@.dom().finite(),
            final(self)@.dom().finite(),
    {
        proof {
            use_type_invariant(&*self);
            lemma_entries_map(self.entries@);
            lemma_map_len(self.entries@);
        }
        let ghost before = self.entries@;
        if self.entries.len() == 0 {
            assert(self@ =~= Map::<K::Model, V>::empty());
            return None;
        }
        let mut entries: Vec<(K, V)> = Vec::new();
        core::mem::swap(&mut entries, &mut self.entries);
        let n: usize = entries.len() - 1;
        let (key, value) = entries.remove(n);
        proof {
            let expected = entries_map(before).remove(key.model());
            assert forall|j: int| 0 <= j < entries@.len() implies entries@[j] == before[j] by {}
            assert(distinct_keys(entries@)) by {
                assert forall|a: int, b: int| 0 <= a < b < entries@.len() implies (
                #[trigger] entries@[a]).0.model() != (#[trigger] entries@[b]).0.model() by {
                    assert(before[a].0.model() != before[b].0.model());
                }
            }
            assert forall|k: K::Model| #[trigger] expected.dom().contains(k) implies exists|j: int|
                0 <= j < entries@.len() && (#[trigger] entries@[j]).0.model() == k by {
                let p = key_position(before, k);
                assert(p != n);
                assert(entries@[p].0.model() == k);
            }
            assert forall|j: int| 0 <= j < entries@.len() implies expected.dom().contains(
                (#[trigger] entries@[j]).0.model(),
            ) && expected[entries@[j].0.model()] == entries@[j].1 by {
                assert(entries@[j] == before[j]);
                assert(before[j].0.model() != before[n as int].0.model());
            }
            lemma_same_map(entries@, expected);
            lemma_map_len(entries@);
        }
        self.entries = entries;
        Some((key, value))
    }

    /// Move every entry of `source` in; an entry of `source` replaces one with its key.
    pub fn absorb(&mut self, source: &mut Self)
        ensures
            final(self)@ == old(self)@.union_prefer_right(old(source)@),
            final(source)@ == Map::<K::Model, V>::empty(),
    {
        let ghost target = self@;
        let ghost full = source@;
        let ghost mut moved: Map<K::Model, V> = Map::empty();
        let mut more: bool = true;
        proof {
            use_type_invariant(&*source);
            lemma_map_len(source.entries@);
        }
        assert(source@.union_prefer_right(moved) =~= full);
        assert(target.union_prefer_right(moved) =~= self@);
        while more
            invariant
                full == source@.union_prefer_right(moved),
                source@.dom().disjoint(moved.dom()),
                self@ == target.union_prefer_right(moved),
                !more ==> source@ == Map::<K::Model, V>::empty(),
                source@.dom().finite(),
            decreases
                source@.dom().len(),
                (if more {
                    1int
                } else {
                    0int
                }),
        {
            match source.take_one() {
                Some((key, value)) => {
                    let ghost k = key.model();
                    self.insert(key, value);
                    proof {
                        let next = moved.insert(k, value);
                        assert(full =~= source@.union_prefer_right(next));
                        assert(source@.dom().disjoint(next.dom()));
                        assert(self@ =~= target.union_prefer_right(next));
                        moved = next;
                    }
                },
                None => {
                    more = false;
                },
            }
        }
        assert(moved =~= full);
    }
}

impl<K: MapKey, V: Copy> AssocMap<K, V> {
    /// A map of its own with the same entries.
    pub fn copy_map(&self) -> (copy: Self)
        ensures
            copy@ == self@,
    {
        proof {
            use_type_invariant(self);
        }
        let mut entries: Vec<(K, V)> = Vec::new();
        let mut i: usize = 0;
        while i < self.entries.len()
            invariant
                i <= self.entries@.len(),
                entries@.len() == i,
                forall|j: int|
                    0 <= j < i ==> (#[trigger] entries@[j]).0.model() == self.entries@[j].0.model()
                        && entries@[j].1 == self.entries@[j].1,
            decreases self.entries@.len() - i,
        {
            entries.push((self.entries[i].0.copy_key(), self.entries[i].1));
            i += 1;
        }
        proof {
            assert forall|a: int, b: int| 0 <= a < b < entries@.len() implies (
            #[trigger] entries@[a]).0.model() != (#[trigger] entries@[b]).0.model() by {
                assert(self.entries@[a].0.model() != self.entries@[b].0.model());
            }
            lemma_entries_map(self.entries@);
            assert forall|k: K::Model| #[trigger] self@.dom().contains(k) implies exists|j: int|
                0 <= j < entries@.len() && (#[trigger] entries@[j]).0.model() == k by {
                let p = key_position(self.entries@, k);
                assert(entries@[p].0.model() == k);
            }
            assert forall|j: int| 0 <= j < entries@.len() implies self@.dom().contains(
                (#[trigger] entries@[j]).0.model(),
            ) && self@[entries@[j].0.model()] == entries@[j].1 by {
                assert(self.entries@[j].0.model() == entries@[j].0.model());
            }
            lemma_same_map(entries@, self@);
        }
        AssocMap { entries }
    }
}

impl MapKey for u32 {
    type Model = u32;

    open spec fn model(&self) -> u32 {
        *self
    }

    fn same_key(&self, other: &Self) -> (same: bool) {
        *self == *other
    }

    fn copy_key(&self) -> (copy: Self) {
        *self
    }
}

/// A set of keys.
pub struct KeySet<K: MapKey> {
    members: AssocMap<K, ()>,
}

impl<K: MapKey> View for KeySet<K> {
    type V = Set<K::Model>;

    closed spec fn view(&self) -> Set<K::Model> {
        self.members@.dom()
    }
}

impl<K: MapKey> KeySet<K> {
    /// The empty set.
    pub fn new() -> (set: Self)
        ensures
            set@ == Set::<K::Model>::empty(),
    {
        let set = KeySet { members: AssocMap::new() };
        assert(set@ =~= Set::empty());
        set
    }

    pub fn len(&self) -> (n: usize)
        ensures
            n == self@.len(),
            self@.finite(),
    {
        self.members.len()
    }

    pub fn is_empty(&self) -> (empty: bool)
        ensures
            empty == (self@ == Set::<K::Model>::empty()),
    {
        let empty = self.members.is_empty();
        proof {
            if self@ == Set::<K::Model>::empty() {
                assert(self.members@ =~= Map::empty());
            } else if empty {
                assert(self@ =~= Set::empty());
            }
        }
        empty
    }

    pub fn contains(&self, key: &K) -> (present: bool)
        ensures
            present == self@.contains(key.model()),
    {
        self.members.contains_key(key)
    }

    /// Add a key; the result tells whether it is new.
    pub fn insert(&mut self, key: K) -> (added: bool)
        ensures
            final(self)@ == old(self)@.insert(key.model()),
            added == !old(self)@.contains(key.model()),
    {
        let added = match self.members.insert(key, ()) {
            Some(_) => false,
            None => true,
        };
        assert(self@ =~= old(self)@.insert(key.model()));
        added
    }

    /// Take a key out; the result tells whether it was there.
    pub fn remove(&mut self, key: &K) -> (removed: bool)
        ensures
            final(self)@ == old(self)@.remove(key.model()),
            removed == old(self)@.contains(key.model()),
    {
        let removed = match self.members.remove(key) {
            Some(_) => true,
            None => false,
        };
        assert(self@ =~= old(self)@.remove(key.model()));
        removed
    }

    pub fn clear(&mut self)
        ensures
            final(self)@ == Set::<K::Model>::empty(),
    {
        self.members.clear();
        assert(self@ =~= Set::empty());
    }

    /// Take one key out, if there is any.
    pub fn take_one(&mut self) -> (taken: Option<K>)
        ensures
            match taken {
                Some(key) => old(self)@.contains(key.model()) && final(self)@ == old(self)@.remove(
                    key.model(),
                ) && final(self)@.len() == old(self)@.len() - 1,
                None => old(self)@ == Set::<K::Model>::empty() && final(self)@ == old(self)@,
            },
            old(self)@.finite(),
            final(self)@.finite(),
    {
        match self.members.take_one() {
            Some((key, _)) => {
                assert(self@ =~= old(self)@.remove(key.model()));
                Some(key)
            },
            None => {
                assert(self@ =~= Set::empty());
                None
            },
        }
    }

    /// Move every key of `source` in.
    pub fn absorb(&mut self, source: &mut Self)
        ensures
            final(self)@ == old(self)@.union(old(source)@),
            final(source)@ == Set::<K::Model>::empty(),
    {
        let ghost target = self.members@;
        let ghost moved = source.members@;
        self.members.absorb(&mut source.members);
        assert(self@ =~= target.dom().union(moved.dom()));
        assert(source@ =~= Set::empty());
    }

    /// A set of its own with the same keys.
    pub fn copy_set(&self) -> (copy: Self)
        ensures
            copy@ == self@,
    {
        KeySet { members: self.members.copy_map() }
    }
}

} // verus!
