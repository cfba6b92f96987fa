//! A small map from text keys to values that keeps its keys in the order in
//! which they were first inserted.

use vstd::prelude::*;

verus! {

/// Map from text keys to values.
pub struct TextMap<V> {
    /// The entries, each key once, in order of first insertion.
    entries: Vec<(String, V)>,
}

/// The map that a sequence of entries stands for: later entries replace
/// earlier ones with the same key.
pub open spec fn map_of<V>(entries: Seq<(String, V)>) -> Map<Seq<char>, V>
    decreases entries.len(),
{
    if entries.len() == 0 {
        Map::empty()
    } else {
        map_of(entries.drop_last()).insert(entries.last().0@, entries.last().1)
    }
}

/// Whether no key occurs twice.
pub open spec fn distinct_keys<V>(entries: Seq<(String, V)>) -> bool {
    forall|i: int, j: int|
        0 <= i < j < entries.len() ==> (#[trigger] entries[i]).0@ != (#[trigger] entries[j]).0@
}

/// Position of the entry with key `key` at or behind `from`, or the number
/// of entries if there is none.
pub open spec fn key_position<V>(entries: Seq<(String, V)>, key: Seq<char>, from: int) -> int
    decreases entries.len() - from,
{
    if from >= entries.len() {
        entries.len() as int
    } else if from >= 0 && entries[from].0@ == key {
        from
    } else {
        key_position(entries, key, from + 1)
    }
}

/// `key_position` lies between `from` and the number of entries, points at
/// an entry with the key when it is a position, and no entry between
/// `from` and it has the key.
pub proof fn lemma_key_position<V>(entries: Seq<(String, V)>, key: Seq<char>, from: int)
    requires
        0 <= from <= entries.len(),
    ensures
        from <= key_position(entries, key, from) <= entries.len(),
        key_position(entries, key, from) < entries.len() ==> entries[key_position(
            entries,
            key,
            from,
        )].0@ == key,
        forall|k: int| from <= k < key_position(entries, key, from) ==> (#[trigger] entries[k]).0@
            != key,
    decreases entries.len() - from,
{
    if from < entries.len() && entries[from].0@ != key {
        lemma_key_position(entries, key, from + 1);
    }
}

/// The map of entries with distinct keys has exactly their keys, maps each
/// key to the value of its entry, and has as many keys as there are entries.
pub proof fn lemma_map_of<V>(entries: Seq<(String, V)>)
    requires
        distinct_keys(entries),
    ensures
        map_of(entries).dom().finite(),
        map_of(entries).dom().len() == entries.len(),
        forall|i: int|
            0 <= i < entries.len() ==> map_of(entries).contains_key((#[trigger] entries[i]).0@)
                && map_of(entries)[entries[i].0@] == entries[i].1,
        forall|key: Seq<char>|
            map_of(entries).contains_key(key) <==> key_position(entries, key, 0) < entries.len(),
    decreases entries.len(),
{
    if entries.len() > 0 {
        let rest = entries.drop_last();
        let last = entries.last();
        assert(distinct_keys(rest)) by {
            assert forall|i: int, j: int| 0 <= i < j < rest.len() implies (#[trigger] rest[i]).0@
                != (#[trigger] rest[j]).0@ by {
                assert(rest[i] == entries[i] && rest[j] == entries[j]);
            }
        }
        lemma_map_of(rest);
        assert forall|i: int| 0 <= i < entries.len() implies map_of(entries).contains_key(
            (#[trigger] entries[i]).0@,
        ) && map_of(entries)[entries[i].0@] == entries[i].1 by {
            if i < entries.len() - 1 {
                assert(rest[i] == entries[i]);
                assert(entries[i].0@ != entries[entries.len() - 1].0@);
            }
        }
        assert(!map_of(rest).contains_key(last.0@)) by {
            if map_of(rest).contains_key(last.0@) {
                lemma_key_position(rest, last.0@, 0);
                let at = key_position(rest, last.0@, 0);
                assert(rest[at] == entries[at]);
                assert(entries[at].0@ != entries[entries.len() - 1].0@);
            }
        }
        assert forall|key: Seq<char>|
            map_of(entries).contains_key(key) <==> key_position(entries, key, 0)
                < entries.len() by {
            lemma_key_position(entries, key, 0);
            lemma_key_position(rest, key, 0);
            let at = key_position(entries, key, 0);
            if at < entries.len() - 1 {
                assert(rest[at] == entries[at]);
                assert(map_of(rest).contains_key(rest[at].0@));
            }
            if map_of(rest).contains_key(key) {
                let found = key_position(rest, key, 0);
                assert(rest[found] == entries[found]);
            }
        }
    }
}

impl<V> View for TextMap<V> {
    type V = Map<Seq<char>, V>;

    closed spec fn view(&self) -> Map<Seq<char>, V> {
        map_of(self.entries@)
    }
}

impl<V> TextMap<V> {
    /// Structural invariant: no key occurs twice.
    pub closed spec fn wf(&self) -> bool {
        distinct_keys(self.entries@)
    }

    /// The keys in order of first insertion.
    pub closed spec fn keys(&self) -> Seq<Seq<char>> {
        self.entries@.map_values(|entry: (String, V)| entry.0@)
    }

    /// The keys of a well-formed map are its domain, each once.
    pub proof fn lemma_keys(&self)
        requires
            self.wf(),
        ensures
            self@.dom().finite(),
            self@.dom().len() == self.keys().len(),
            forall|i: int| 0 <= i < self.keys().len() ==> self@.contains_key(#[trigger] self.keys()[i]),
            forall|i: int, j: int|
                0 <= i < j < self.keys().len() ==> self.keys()[i] != self.keys()[j],
            forall|key: Seq<char>| self@.contains_key(key) <==> self.keys().contains(key),
    {
        lemma_map_of(self.entries@);
        assert forall|i: int| 0 <= i < self.keys().len() implies self@.contains_key(
            #[trigger] self.keys()[i],
        ) by {
            assert(self.keys()[i] == self.entries@[i].0@);
        }
        assert forall|key: Seq<char>| self@.contains_key(key) <==> self.keys().contains(key) by {
            lemma_key_position(self.entries@, key, 0);
            let at = key_position(self.entries@, key, 0);
            if at < self.entries@.len() {
                assert(self.keys()[at] == key);
            }
            if self.keys().contains(key) {
                let i = choose|i: int| 0 <= i < self.keys().len() && self.keys()[i] == key;
                assert(self.entries@[i].0@ == key);
                assert(self@.contains_key(self.entries@[i].0@));
            }
        }
    }

    /// Creates an empty map.
    pub fn new() -> (map: Self)
        ensures
            map.wf(),
            map@ == Map::<Seq<char>, V>::empty(),
            map.keys() == Seq::<Seq<char>>::empty(),
    {
        let map = TextMap { entries: Vec::new() };
        assert(map.keys() =~= Seq::<Seq<char>>::empty());
        map
    }

    /// Number of keys.
    pub fn len(&self) -> (count: usize)
        requires
            self.wf(),
        ensures
            count == self@.dom().len(),
            count == self.keys().len(),
    {
        proof {
            lemma_map_of(self.entries@);
        }
        self.entries.len()
    }

    /// Whether the map has no key.
    pub fn is_empty(&self) -> (empty: bool)
        requires
            self.wf(),
        ensures
            empty == (self@.dom().len() == 0),
    {
        proof {
            lemma_map_of(self.entries@);
        }
        self.entries.len() == 0
    }

    /// Position of `key` among the keys.
    fn position(&self, key: &String) -> (at: usize)
        ensures
            at == key_position(self.entries@, key@, 0),
            at <= self.entries@.len(),
    {
        let mut i: usize = 0;
        proof {
            lemma_key_position(self.entries@, key@, 0);
        }
        while i < self.entries.len()
            invariant
                i <= self.entries@.len(),
                key_position(self.entries@, key@, 0) == key_position(self.entries@, key@, i as int),
            decreases self.entries@.len() - i,
        {
            if self.entries[i].0 == *key {
                return i;
            }
            i += 1;
        }
        i
    }

    /// Whether the map has `key`.
    pub fn contains_key(&self, key: &str) -> (found: bool)
        requires
            self.wf(),
        ensures
            found == self@.contains_key(key@),
    {
        let owned = String::from_str(key);
        proof {
            lemma_map_of(self.entries@);
        }
        self.position(&owned) < self.entries.len()
    }

    /// The value of `key`.
    pub fn get(&self, key: &str) -> (value: Option<&V>)
        requires
            self.wf(),
        ensures
            value is Some == self@.contains_key(key@),
            value is Some ==> *value->0 == self@[key@],
    {
        let owned = String::from_str(key);
        proof {
            lemma_map_of(self.entries@);
            lemma_key_position(self.entries@, key@, 0);
        }
        let at = self.position(&owned);
        if at < self.entries.len() {
            Some(&self.entries[at].1)
        } else {
            None
        }
    }

    /// Sets the value of `key`; a new key goes behind the keys that are there.
    pub fn insert(&mut self, key: String, value: V)
        requires
            old(self).wf(),
        ensures
            final(self).wf(),
            final(self)@ == old(self)@.insert(key@, value),
            old(self)@.contains_key(key@) ==> final(self).keys() == old(self).keys(),
            !old(self)@.contains_key(key@) ==> final(self).keys() == old(self).keys().push(key@),
    {
        proof {
            lemma_map_of(self.entries@);
            lemma_key_position(self.entries@, key@, 0);
        }
        let at = self.position(&key);
        let ghost before = self.entries@;
        if at < self.entries.len() {
            self.entries.set(at, (key, value));
            proof {
                let after = self.entries@;
                assert(distinct_keys(after)) by {
                    assert forall|i: int, j: int| 0 <= i < j < after.len() implies (
                    #[trigger] after[i]).0@ != (#[trigger] after[j]).0@ by {
                        assert(after[i].0@ == before[i].0@ && after[j].0@ == before[j].0@);
                    }
                }
                lemma_map_of(after);
                assert(map_of(after) =~= map_of(before).insert(key@, value)) by {
                    assert forall|k: Seq<char>|
                        map_of(after).contains_key(k) <==> map_of(before).insert(
                            key@,
                            value,
                        ).contains_key(k) by {
                        lemma_key_position(after, k, 0);
                        lemma_key_position(before, k, 0);
                        let pa = key_position(after, k, 0);
                        let pb = key_position(before, k, 0);
                        if pa < after.len() {
                            assert(before[pa].0@ == after[pa].0@);
                            assert(map_of(before).contains_key(before[pa].0@));
                        }
                        if pb < before.len() {
                            assert(before[pb].0@ == after[pb].0@);
                            assert(map_of(after).contains_key(after[pb].0@));
                        }
                    }
                    assert forall|k: Seq<char>| map_of(after).contains_key(k) implies map_of(
                        after,
                    )[k] == map_of(before).insert(key@, value)[k] by {
                        lemma_key_position(after, k, 0);
                        let pa = key_position(after, k, 0);
                        assert(map_of(after)[after[pa].0@] == after[pa].1);
                        if pa != at {
                            assert(after[pa] == before[pa]);
                            assert(map_of(before)[before[pa].0@] == before[pa].1);
                        }
                    }
                }
                assert(self.keys() =~= old(self).keys());
            }
        } else {
            self.entries.push((key, value));
            proof {
                let after = self.entries@;
                assert(after.drop_last() =~= before);
                assert(distinct_keys(after)) by {
                    assert forall|i: int, j: int| 0 <= i < j < after.len() implies (
                    #[trigger] after[i]).0@ != (#[trigger] after[j]).0@ by {
                        if j < after.len() - 1 {
                            assert(after[i] == before[i] && after[j] == before[j]);
                        } else {
                            assert(after[i] == before[i]);
                        }
                    }
                }
                assert(self.keys() =~= old(self).keys().push(key@));
            }
        }
    }

    /// A copy of the keys in order of first insertion.
    pub fn key_list(&self) -> (list: Vec<String>)
        ensures
            list@.map_values(|key: String| key@) == self.keys(),
    {
        let mut list: Vec<String> = Vec::new();
        let mut i: usize = 0;
        while i < self.entries.len()
            invariant
                i <= self.entries@.len(),
                list@.len() == i,
                forall|k: int| 0 <= k < i ==> (#[trigger] list@[k])@ == self.entries@[k].0@,
            decreases self.entries@.len() - i,
        {
            list.push(self.entries[i].0.clone());
            i += 1;
        }
        assert(list@.map_values(|key: String| key@) =~= self.keys());
        list
    }
}

impl TextMap<Vec<String>> {
    /// Appends `item` to the list of `key`; a new key gets a list of its own.
    pub fn add_to(&mut self, key: String, item: String)
        requires
            old(self).wf(),
        ensures
            final(self).wf(),
            old(self)@.contains_key(key@) ==> final(self)@.contains_key(key@) && final(self)@[key@]@
                == old(self)@[key@]@.push(item) && final(self)@.remove(key@) == old(self)@.remove(
                key@,
            ) && final(self).keys() == old(self).keys(),
            !old(self)@.contains_key(key@) ==> final(self)@.contains_key(key@) && final(self)@[key@]@
                == seq![item] && final(self)@.remove(key@) == old(self)@ && final(self).keys()
                == old(self).keys().push(key@),
    {
        proof {
            lemma_map_of(self.entries@);
            lemma_key_position(self.entries@, key@, 0);
        }
        let at = self.position(&key);
        let ghost before = *self;
        if at < self.entries.len() {
            let mut list: Vec<String> = Vec::new();
            let current = &self.entries[at].1;
            let mut i: usize = 0;
            while i < current.len()
                invariant
                    i <= current.len(),
                    list@ == current@.take(i as int),
                decreases current.len() - i,
            {
                list.push(current[i].clone());
                i += 1;
                assert(list@ =~= current@.take(i as int));
            }
            assert(current@.take(i as int) =~= current@);
            list.push(item);
            self.insert(key, list);
            assert(self@.remove(key@) =~= before@.remove(key@));
        } else {
            let mut list: Vec<String> = Vec::new();
            list.push(item);
            self.insert(key, list);
            assert(self@.remove(key@) =~= before@);
        }
    }
}

} // verus!
