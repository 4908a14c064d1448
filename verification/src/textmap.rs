//! A map keyed by text, kept as a list of entries with distinct keys.

use vstd::prelude::*;
use crate::text::str_eq;

verus! {

/// Whether some entry of `entries` has the key `key`.
pub open spec fn has_key<V>(entries: Seq<(String, V)>, key: Seq<char>) -> bool {
    exists|i: int| 0 <= i < entries.len() && (#[trigger] entries[i]).0@ == key
}

/// Whether no two entries of `entries` have the same key.
pub open spec fn distinct_keys<V>(entries: Seq<(String, V)>) -> bool {
    forall|i: int, j: int|
        0 <= i < j < entries.len() ==> (#[trigger] entries[i]).0@ != (#[trigger] entries[j]).0@
}

/// The map that a list of entries denotes; of two entries with one key the
/// later one counts.
pub open spec fn entries_map<V>(entries: Seq<(String, V)>) -> Map<Seq<char>, V>
    decreases entries.len(),
{
    if entries.len() == 0 {
        Map::empty()
    } else {
        entries_map(entries.drop_last()).insert(entries.last().0@, entries.last().1)
    }
}

/// The keys of `entries_map` are the keys of the entries, and there are
/// finitely many.
pub proof fn lemma_entries_map_dom<V>(entries: Seq<(String, V)>)
    ensures
        entries_map(entries).dom().finite(),
        forall|key: Seq<char>|
            #[trigger] entries_map(entries).dom().contains(key) <==> has_key(entries, key),
    decreases entries.len(),
{
    if entries.len() > 0 {
        let front = entries.drop_last();
        lemma_entries_map_dom(front);
        assert forall|key: Seq<char>|
            #[trigger] entries_map(entries).dom().contains(key) <==> has_key(
                entries,
                key,
            ) by {
            if has_key(entries, key) {
                let i = choose|i: int| 0 <= i < entries.len() && (#[trigger] entries[i]).0@ == key;
                if i < front.len() {
                    assert(front[i].0@ == key);
                    assert(has_key(front, key));
                }
            }
            if has_key(front, key) {
                let i = choose|i: int| 0 <= i < front.len() && (#[trigger] front[i]).0@ == key;
                assert(entries[i].0@ == key);
            }
            if key == entries.last().0@ {
                assert(entries[entries.len() - 1].0@ == key);
            }
        }
    }
}

/// Where the keys are distinct, each entry's key maps to its value, and the
/// map has as many keys as there are entries.
pub proof fn lemma_entries_map_values<V>(entries: Seq<(String, V)>)
    requires
        distinct_keys(entries),
    ensures
        forall|i: int|
            0 <= i < entries.len() ==> entries_map(entries)[(#[trigger] entries[i]).0@]
                == entries[i].1,
        entries_map(entries).dom().len() == entries.len(),
    decreases entries.len(),
{
    if entries.len() > 0 {
        let front = entries.drop_last();
        let last = entries.last();
        assert(distinct_keys(front)) by {
            assert forall|i: int, j: int| 0 <= i < j < front.len() implies (#[trigger] front[i]).0@
                != (#[trigger] front[j]).0@ by {
                assert(entries[i].0@ != entries[j].0@);
            }
        }
        lemma_entries_map_values(front);
        lemma_entries_map_dom(front);
        assert(!has_key(front, last.0@)) by {
            if has_key(front, last.0@) {
                let i = choose|i: int| 0 <= i < front.len() && (#[trigger] front[i]).0@ == last.0@;
                assert(entries[i].0@ != entries[entries.len() - 1].0@);
            }
        }
        assert forall|i: int| 0 <= i < entries.len() implies entries_map(entries)[(
            #[trigger] entries[i]).0@] == entries[i].1 by {
            if i < front.len() {
                assert(front[i] == entries[i]);
                assert(entries[i].0@ != entries[entries.len() - 1].0@);
            }
        }
    }
}

/// `keys` without the places where `key` stands, the others in their order.
pub open spec fn without_key(keys: Seq<Seq<char>>, key: Seq<char>) -> Seq<Seq<char>>
    decreases keys.len(),
{
    if keys.len() == 0 {
        keys
    } else if keys.last() == key {
        without_key(keys.drop_last(), key)
    } else {
        without_key(keys.drop_last(), key).push(keys.last())
    }
}

/// The keys of `entries`, each once, in the order in which they first occur.
pub open spec fn keys_in_order<V>(entries: Seq<(String, V)>) -> Seq<Seq<char>>
    decreases entries.len(),
{
    if entries.len() == 0 {
        Seq::empty()
    } else if has_key(entries.drop_last(), entries.last().0@) {
        keys_in_order(entries.drop_last())
    } else {
        keys_in_order(entries.drop_last()).push(entries.last().0@)
    }
}

/// A finite map from text to `V`.
#[derive(Debug)]
pub struct TextMap<V> {
    entries: Vec<(String, V)>,
}

impl<V> View for TextMap<V> {
    type V = Map<Seq<char>, V>;

    closed spec fn view(&self) -> Map<Seq<char>, V> {
        entries_map(self.entries@)
    }
}

impl<V: Clone> Clone for TextMap<V> {
    /// A copy with the same keys in the same order, each with a clone of
    /// its value.
    fn clone(&self) -> (copy: Self)
        ensures
            copy.key_order() == self.key_order(),
            copy@.dom() == self@.dom(),
            forall|key: Seq<char>|
                self@.contains_key(key) ==> vstd::pervasive::cloned(
                    self@[key],
                    #[trigger] copy@[key],
                ),
    {
        proof {
            use_type_invariant(self);
        }
        let mut entries: Vec<(String, V)> = Vec::new();
        let mut i: usize = 0;
        while i < self.entries.len()
            invariant
                i <= self.entries@.len(),
                entries@.len() == i,
                forall|j: int|
                    0 <= j < i ==> (#[trigger] entries@[j]).0@ == self.entries@[j].0@
                        && vstd::pervasive::cloned(self.entries@[j].1, entries@[j].1),
            decreases self.entries@.len() - i,
        {
            let key = self.entries[i].0.clone();
            let value = self.entries[i].1.clone();
            entries.push((key, value));
            i += 1;
        }
        proof {
            assert(distinct_keys(entries@)) by {
                assert forall|a: int, b: int| 0 <= a < b < entries@.len() implies (
                #[trigger] entries@[a]).0@ != (#[trigger] entries@[b]).0@ by {
                    assert(self.entries@[a].0@ != self.entries@[b].0@);
                }
            }
            lemma_entries_map_dom(entries@);
            lemma_entries_map_values(entries@);
            lemma_entries_map_dom(self.entries@);
            lemma_entries_map_values(self.entries@);
            assert forall|key: Seq<char>| has_key(entries@, key) <==> has_key(
                self.entries@,
                key,
            ) by {
                if has_key(entries@, key) {
                    let j = choose|j: int|
                        0 <= j < entries@.len() && (#[trigger] entries@[j]).0@ == key;
                    assert(self.entries@[j].0@ == key);
                }
                if has_key(self.entries@, key) {
                    let j = choose|j: int|
                        0 <= j < self.entries@.len() && (#[trigger] self.entries@[j]).0@ == key;
                    assert(entries@[j].0@ == key);
                }
            }
            assert(entries_map(entries@).dom() =~= entries_map(self.entries@).dom());
            assert forall|key: Seq<char>| entries_map(self.entries@).contains_key(key)
                implies vstd::pervasive::cloned(
                entries_map(self.entries@)[key],
                #[trigger] entries_map(entries@)[key],
            ) by {
                let j = choose|j: int|
                    0 <= j < self.entries@.len() && (#[trigger] self.entries@[j]).0@ == key;
                assert(entries@[j].0@ == key);
                assert(entries_map(self.entries@)[self.entries@[j].0@] == self.entries@[j].1);
                assert(entries_map(entries@)[entries@[j].0@] == entries@[j].1);
            }
            assert(Seq::new(entries@.len(), |j: int| entries@[j].0@) =~= Seq::new(
                self.entries@.len(),
                |j: int| self.entries@[j].0@,
            ));
        }
        TextMap { entries }
    }
}

impl<V> TextMap<V> {
    #[verifier::type_invariant]
    spec fn well_formed(self) -> bool {
        distinct_keys(self.entries@)
    }

    /// The keys in the order in which the entries are kept.
    pub closed spec fn key_order(&self) -> Seq<Seq<char>> {
        Seq::new(self.entries@.len(), |i: int| self.entries@[i].0@)
    }

    /// The empty map.
    pub fn new() -> (map: Self)
        ensures
            map@ == Map::<Seq<char>, V>::empty(),
            map.key_order() == Seq::<Seq<char>>::empty(),
    {
        let map = TextMap { entries: Vec::new() };
        assert(map.key_order() =~= Seq::<Seq<char>>::empty());
        map
    }

    /// The map that a list of entries denotes; of two entries with one key
    /// the later one counts. The keys are kept in the order in which they
    /// first occur.
    pub fn from_entries(entries: Vec<(String, V)>) -> (map: Self)
        ensures
            map@ == entries_map(entries@),
            map.key_order() == keys_in_order(entries@),
    {
        let ghost all = entries@;
        let mut map = TextMap::new();
        for entry in it: entries.into_iter()
            invariant
                it.seq() == all,
                map@ == entries_map(all.take(it.index() as int)),
                map.key_order() == keys_in_order(all.take(it.index() as int)),
        {
            proof {
                let n = it.index() as int;
                assert(all.take(n + 1).drop_last() =~= all.take(n));
                lemma_entries_map_dom(all.take(n));
            }
            map.insert(entry.0, entry.1);
        }
        assert(all.take(all.len() as int) =~= all);
        map
    }

    /// The number of keys.
    pub fn len(&self) -> (n: usize)
        ensures
            self@.dom().finite(),
            n == self@.dom().len(),
            n == self.key_order().len(),
    {
        proof {
            use_type_invariant(self);
            lemma_entries_map_dom(self.entries@);
            lemma_entries_map_values(self.entries@);
        }
        self.entries.len()
    }

    /// Whether the map has no key.
    pub fn is_empty(&self) -> (empty: bool)
        ensures
            empty == (self@ == Map::<Seq<char>, V>::empty()),
            empty == (self.key_order().len() == 0),
    {
        proof {
            use_type_invariant(self);
            lemma_entries_map_dom(self.entries@);
            lemma_entries_map_values(self.entries@);
            if self.entries@.len() == 0 {
                assert(self@ =~= Map::<Seq<char>, V>::empty());
            } else {
                assert(has_key(self.entries@, self.entries@[0].0@));
            }
        }
        self.entries.len() == 0
    }

    fn position(&self, key: &str) -> (at: Option<usize>)
        ensures
            match at {
                Some(i) => i < self.entries@.len() && self.entries@[i as int].0@ == key@,
                None => !has_key(self.entries@, key@),
            },
    {
        let mut i: usize = 0;
        while i < self.entries.len()
            invariant
                i <= self.entries@.len(),
                forall|j: int| 0 <= j < i ==> (#[trigger] self.entries@[j]).0@ != key@,
            decreases self.entries@.len() - i,
        {
            if str_eq(self.entries[i].0.as_str(), key) {
                return Some(i);
            }
            i += 1;
        }
        None
    }

    /// Whether `key` is a key of the map.
    pub fn contains_key(&self, key: &str) -> (found: bool)
        ensures
            found == self@.contains_key(key@),
    {
        proof {
            lemma_entries_map_dom(self.entries@);
        }
        self.position(key).is_some()
    }

    /// The value at `key`.
    pub fn get(&self, key: &str) -> (value: Option<&V>)
        ensures
            match value {
                Some(v) => self@.contains_key(key@) && *v == self@[key@],
                None => !self@.contains_key(key@),
            },
    {
        proof {
            use_type_invariant(self);
            lemma_entries_map_dom(self.entries@);
            lemma_entries_map_values(self.entries@);
        }
        match self.position(key) {
            Some(i) => {
                assert(has_key(self.entries@, key@));
                Some(&self.entries[i].1)
            },
            None => None,
        }
    }

    /// Sets the value at `key`, and returns the value that was there.
    /// A new key goes behind the others; a key already there keeps its place.
    pub fn insert(&mut self, key: String, value: V) -> (previous: Option<V>)
        ensures
            final(self)@ == old(self)@.insert(key@, value),
            previous == if old(self)@.contains_key(key@) {
                Some(old(self)@[key@])
            } else {
                None::<V>
            },
            final(self).key_order() == if old(self)@.contains_key(key@) {
                old(self).key_order()
            } else {
                old(self).key_order().push(key@)
            },
    {
        proof {
            use_type_invariant(&*self);
            lemma_entries_map_dom(self.entries@);
            lemma_entries_map_values(self.entries@);
        }
        let ghost before = self.entries@;
        let at = self.position(key.as_str());
        let mut entries: Vec<(String, V)> = Vec::new();
        core::mem::swap(&mut entries, &mut self.entries);
        let previous = match at {
            Some(i) => {
                assert(has_key(before, key@));
                let ghost key_text = key@;
                let removed = entries.remove(i);
                entries.insert(i, (key, value));
                proof {
                    let after = entries@;
                    assert(after.len() == before.len());
                    assert forall|j: int| 0 <= j < after.len() implies (#[trigger] after[j]).0@
                        == before[j].0@ by {}
                    assert(distinct_keys(after)) by {
                        assert forall|a: int, b: int| 0 <= a < b < after.len() implies (
                        #[trigger] after[a]).0@ != (#[trigger] after[b]).0@ by {
                            assert(before[a].0@ != before[b].0@);
                        }
                    }
                    lemma_entries_map_dom(after);
                    lemma_entries_map_values(after);
                    assert forall|k: Seq<char>| has_key(after, k) <==> has_key(before, k) by {
                        if has_key(after, k) {
                            let j = choose|j: int| 0 <= j < after.len() && (#[trigger] after[j]).0@ == k;
                            assert(before[j].0@ == k);
                        }
                        if has_key(before, k) {
                            let j = choose|j: int| 0 <= j < before.len() && (#[trigger] before[j]).0@ == k;
                            assert(after[j].0@ == k);
                        }
                    }
                    assert forall|k: Seq<char>| #[trigger] entries_map(after).dom().contains(k)
                        implies entries_map(after)[k] == entries_map(before).insert(
                        key_text,
                        value,
                    )[k] by {
                        let j = choose|j: int| 0 <= j < after.len() && (#[trigger] after[j]).0@ == k;
                        assert(entries_map(after)[after[j].0@] == after[j].1);
                        assert(entries_map(before)[before[j].0@] == before[j].1);
                        if j != i {
                            assert(after[j] == before[j]);
                            assert(before[j].0@ != before[i as int].0@);
                        }
                    }
                    assert(entries_map(after) =~= entries_map(before).insert(key_text, value));
                    assert(entries_map(before)[before[i as int].0@] == before[i as int].1);
                    assert(Seq::new(after.len(), |j: int| after[j].0@) =~= Seq::new(
                        before.len(),
                        |j: int| before[j].0@,
                    ));
                }
                Some(removed.1)
            },
            None => {
                let ghost key_text = key@;
                entries.push((key, value));
                proof {
                    let after = entries@;
                    assert(after.drop_last() =~= before);
                    assert(distinct_keys(after)) by {
                        assert forall|a: int, b: int| 0 <= a < b < after.len() implies (
                        #[trigger] after[a]).0@ != (#[trigger] after[b]).0@ by {
                            if b < before.len() {
                                assert(before[a].0@ != before[b].0@);
                            } else {
                                assert(before[a].0@ != key_text);
                            }
                        }
                    }
                    assert(Seq::new(after.len(), |j: int| after[j].0@) =~= Seq::new(
                        before.len(),
                        |j: int| before[j].0@,
                    ).push(key_text));
                }
                None
            },
        };
        self.entries = entries;
        previous
    }

    /// Takes `key` out of the map, and returns the value that was there.
    /// The other keys keep their order.
    pub fn remove(&mut self, key: &str) -> (previous: Option<V>)
        ensures
            final(self)@ == old(self)@.remove(key@),
            previous == if old(self)@.contains_key(key@) {
                Some(old(self)@[key@])
            } else {
                None::<V>
            },
            final(self).key_order() == without_key(old(self).key_order(), key@),
    {
        proof {
            use_type_invariant(&*self);
            lemma_entries_map_dom(self.entries@);
            lemma_entries_map_values(self.entries@);
        }
        let ghost before = self.entries@;
        let at = self.position(key);
        match at {
            Some(i) => {
                let mut entries: Vec<(String, V)> = Vec::new();
                core::mem::swap(&mut entries, &mut self.entries);
                let removed = entries.remove(i);
                proof {
                    let after = entries@;
                    assert(has_key(before, key@));
                    assert(distinct_keys(after)) by {
                        assert forall|a: int, b: int| 0 <= a < b < after.len() implies (
                        #[trigger] after[a]).0@ != (#[trigger] after[b]).0@ by {
                            let a0 = if a < i { a } else { a + 1 };
                            let b0 = if b < i { b } else { b + 1 };
                            assert(after[a] == before[a0]);
                            assert(after[b] == before[b0]);
                            assert(before[a0].0@ != before[b0].0@);
                        }
                    }
                    lemma_entries_map_dom(after);
                    lemma_entries_map_values(after);
                    assert forall|k: Seq<char>| has_key(after, k) <==> (has_key(before, k) && k
                        != key@) by {
                        if has_key(after, k) {
                            let j = choose|j: int| 0 <= j < after.len() && (#[trigger] after[j]).0@ == k;
                            let j0 = if j < i { j } else { j + 1 };
                            assert(after[j] == before[j0]);
                            assert(before[j0].0@ == k);
                            assert(before[j0].0@ != before[i as int].0@);
                        }
                        if has_key(before, k) && k != key@ {
                            let j = choose|j: int| 0 <= j < before.len() && (#[trigger] before[j]).0@ == k;
                            let j1 = if j < i { j } else { j - 1 };
                            assert(after[j1] == before[j]);
                            assert(after[j1].0@ == k);
                        }
                    }
                    assert forall|k: Seq<char>| #[trigger] entries_map(after).dom().contains(k)
                        implies entries_map(after)[k] == entries_map(before)[k] by {
                        let j = choose|j: int| 0 <= j < after.len() && (#[trigger] after[j]).0@ == k;
                        let j0 = if j < i { j } else { j + 1 };
                        assert(after[j] == before[j0]);
                        assert(entries_map(after)[after[j].0@] == after[j].1);
                        assert(entries_map(before)[before[j0].0@] == before[j0].1);
                    }
                    assert(entries_map(after) =~= entries_map(before).remove(key@));
                    assert(entries_map(before)[before[i as int].0@] == before[i as int].1);
                    let keys = Seq::new(before.len(), |j: int| before[j].0@);
                    assert forall|a: int, b: int| 0 <= a < b < keys.len() implies keys[a]
                        != keys[b] by {
                        assert(before[a].0@ != before[b].0@);
                    }
                    lemma_without_key_at(keys, i as int);
                    assert(Seq::new(after.len(), |j: int| after[j].0@) =~= Seq::new(
                        before.len(),
                        |j: int| before[j].0@,
                    ).remove(i as int));
                }
                self.entries = entries;
                Some(removed.1)
            },
            None => {
                proof {
                    assert(entries_map(before) =~= entries_map(before).remove(key@));
                    let keys = Seq::new(before.len(), |j: int| before[j].0@);
                    assert forall|j: int| 0 <= j < keys.len() implies #[trigger] keys[j] != key@ by {
                        assert(before[j].0@ != key@);
                    }
                    lemma_without_key_absent(keys, key@);
                }
                None
            },
        }
    }

    /// The key that is kept first, if there is any key.
    pub fn first_key(&self) -> (key: Option<&String>)
        ensures
            match key {
                Some(k) => self.key_order().len() > 0 && k@ == self.key_order()[0]
                    && self@.contains_key(k@),
                None => self.key_order().len() == 0 && self@ == Map::<Seq<char>, V>::empty(),
            },
    {
        proof {
            lemma_entries_map_dom(self.entries@);
        }
        if self.entries.len() == 0 {
            assert(self@ =~= Map::<Seq<char>, V>::empty());
            None
        } else {
            assert(has_key(self.entries@, self.entries@[0].0@));
            Some(&self.entries[0].0)
        }
    }

    /// Every key with its value, in the order in which the entries are kept.
    pub fn entries(&self) -> (list: Vec<(&String, &V)>)
        ensures
            list@.len() == self.key_order().len(),
            forall|i: int|
                0 <= i < list@.len() ==> (#[trigger] list@[i]).0@ == self.key_order()[i]
                    && self@.contains_key(list@[i].0@) && *list@[i].1 == self@[list@[i].0@],
            forall|i: int, j: int|
                0 <= i < j < list@.len() ==> (#[trigger] list@[i]).0@ != (#[trigger] list@[j]).0@,
            forall|key: Seq<char>|
                self@.contains_key(key) ==> exists|i: int|
                    0 <= i < list@.len() && (#[trigger] list@[i]).0@ == key,
            self@.dom().finite(),
            list@.len() == self@.dom().len(),
    {
        proof {
            use_type_invariant(self);
            lemma_entries_map_dom(self.entries@);
            lemma_entries_map_values(self.entries@);
        }
        let mut list: Vec<(&String, &V)> = Vec::new();
        let mut i: usize = 0;
        while i < self.entries.len()
            invariant
                i <= self.entries@.len(),
                list@.len() == i,
                forall|j: int|
                    0 <= j < i ==> (#[trigger] list@[j]).0@ == self.entries@[j].0@ && *list@[j].1
                        == self.entries@[j].1,
            decreases self.entries@.len() - i,
        {
            list.push((&self.entries[i].0, &self.entries[i].1));
            i += 1;
        }
        proof {
            assert forall|j: int| 0 <= j < list@.len() implies (#[trigger] list@[j]).0@
                == self.key_order()[j] && self@.contains_key(list@[j].0@) && *list@[j].1
                == self@[list@[j].0@] by {
                assert(has_key(self.entries@, self.entries@[j].0@));
                assert(entries_map(self.entries@)[self.entries@[j].0@] == self.entries@[j].1);
            }
            assert forall|a: int, b: int| 0 <= a < b < list@.len() implies (#[trigger] list@[a]).0@
                != (#[trigger] list@[b]).0@ by {
                assert(self.entries@[a].0@ != self.entries@[b].0@);
            }
            assert forall|key: Seq<char>| self@.contains_key(key) implies exists|i: int|
                0 <= i < list@.len() && (#[trigger] list@[i]).0@ == key by {
                let i = choose|i: int|
                    0 <= i < self.entries@.len() && (#[trigger] self.entries@[i]).0@ == key;
                assert(list@[i].0@ == key);
            }
        }
        list
    }
}

/// Taking out the one place where a key stands, in a list that holds it
/// once, is taking that key out.
proof fn lemma_without_key_at(keys: Seq<Seq<char>>, at: int)
    requires
        0 <= at < keys.len(),
        forall|i: int, j: int| 0 <= i < j < keys.len() ==> keys[i] != keys[j],
    ensures
        without_key(keys, keys[at]) == keys.remove(at),
    decreases keys.len(),
{
    let key = keys[at];
    let front = keys.drop_last();
    if at == keys.len() - 1 {
        assert forall|j: int| 0 <= j < front.len() implies #[trigger] front[j] != key by {
            assert(keys[j] != keys[at]);
        }
        lemma_without_key_absent(front, key);
        assert(keys.remove(at) =~= front);
    } else {
        lemma_without_key_at(front, at);
        assert(keys.last() != key);
        assert(keys.remove(at) =~= front.remove(at).push(keys.last()));
    }
}

/// Taking a key out of a list that does not hold it changes nothing.
proof fn lemma_without_key_absent(keys: Seq<Seq<char>>, key: Seq<char>)
    requires
        forall|j: int| 0 <= j < keys.len() ==> #[trigger] keys[j] != key,
    ensures
        without_key(keys, key) == keys,
    decreases keys.len(),
{
    if keys.len() > 0 {
        lemma_without_key_absent(keys.drop_last(), key);
        assert(keys.drop_last().push(keys.last()) =~= keys);
    }
}

} // verus!
